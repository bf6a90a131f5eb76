//! The chat shell's state: the messages shown, the scroll position and the
//! loading flag, and what the screen shows of them.

use vstd::prelude::*;
use tui_input::Input;
use crate::text::{chars_of, split_pieces, string_of, vec_views, split_by, Separator};

verus! {

/// The line editor of the input box.
#[verifier::external_type_specification]
#[verifier::external_body]
pub struct ExInput(Input);

/// Calls `tui_input::Input::default()`: an input line with no text.
#[verifier::external_body]
fn empty_input() -> (r: Input)
{
    Input::default()
}

/// Whether the user is typing a command.
pub enum AppMode {
    Normal,
    EnteringCommand,
}

/// One message of the chat.
#[derive(Debug, Clone, PartialEq, Eq)]
pub struct ChatMessage {
    pub sender: String,
    pub content: String,
    pub is_system: bool,
    pub is_error: bool,
}

/// The state of the chat screen; `scroll` counts lines up from the bottom.
pub struct App {
    pub input: Input,
    pub messages: Vec<ChatMessage>,
    pub mode: AppMode,
    pub scroll: usize,
    pub is_loading: bool,
    pub active_persona_name: Option<String>,
}

/// A message as plain values: sender, content, system and error flags.
pub open spec fn message_view(m: ChatMessage) -> (Seq<char>, Seq<char>, bool, bool) {
    (m.sender@, m.content@, m.is_system, m.is_error)
}

/// The messages as plain values.
pub open spec fn message_views(ms: Seq<ChatMessage>) -> Seq<(Seq<char>, Seq<char>, bool, bool)> {
    ms.map_values(|m: ChatMessage| message_view(m))
}

impl App {
    /// An empty chat: no messages, at the bottom, not loading, no expert.
    pub fn new() -> (r: Self)
        ensures
            r.messages@.len() == 0,
            r.mode == AppMode::Normal,
            r.scroll == 0,
            !r.is_loading,
            r.active_persona_name is None,
    {
        App {
            input: empty_input(),
            messages: Vec::new(),
            mode: AppMode::Normal,
            scroll: 0,
            is_loading: false,
            active_persona_name: None,
        }
    }

    /// Append a message and go back to the bottom of the chat.
    pub fn add_message(&mut self, sender: &str, content: &str, is_system: bool, is_error: bool)
        ensures
            message_views(final(self).messages@) == message_views(old(self).messages@).push(
                (sender@, content@, is_system, is_error),
            ),
            final(self).scroll == 0,
            final(self).input == old(self).input,
            final(self).mode == old(self).mode,
            final(self).is_loading == old(self).is_loading,
            final(self).active_persona_name == old(self).active_persona_name,
    {
        let m = ChatMessage {
            sender: String::from_str(sender),
            content: String::from_str(content),
            is_system,
            is_error,
        };
        self.messages.push(m);
        self.scroll = 0;
        assert(message_views(self.messages@) =~= message_views(old(self).messages@).push(
            (sender@, content@, is_system, is_error),
        ));
    }

    /// Scroll one line up (away from the bottom), stopping at the largest
    /// offset.
    pub fn scroll_up(&mut self)
        ensures
            final(self).scroll == (if old(self).scroll < usize::MAX { old(self).scroll + 1 } else { usize::MAX as int }),
            final(self).messages == old(self).messages,
            final(self).input == old(self).input,
            final(self).mode == old(self).mode,
            final(self).is_loading == old(self).is_loading,
            final(self).active_persona_name == old(self).active_persona_name,
    {
        self.scroll = self.scroll.saturating_add(1);
    }

    /// Scroll one line down (towards the bottom), stopping at the bottom.
    pub fn scroll_down(&mut self)
        ensures
            final(self).scroll == (if old(self).scroll > 0 { old(self).scroll - 1 } else { 0 }),
            final(self).messages == old(self).messages,
            final(self).input == old(self).input,
            final(self).mode == old(self).mode,
            final(self).is_loading == old(self).is_loading,
            final(self).active_persona_name == old(self).active_persona_name,
    {
        self.scroll = self.scroll.saturating_sub(1);
    }
}

/// How a line of the chat is shown.
#[derive(Debug, Clone, Copy, PartialEq, Eq, Structural)]
pub enum Tone {
    /// The sender of an error message.
    ErrorSender,
    /// The sender of a system message.
    SystemSender,
    /// The sender `User`.
    UserSender,
    /// The sender of an expert's message.
    ExpertSender,
    /// A line of an error message.
    ErrorText,
    /// A line of a system message.
    MutedText,
    /// A line of any other message.
    NormalText,
    /// The blank line after a message.
    Blank,
}

/// A line of the chat as it is shown.
#[derive(Debug, Clone, PartialEq, Eq)]
pub struct ChatLine {
    pub text: String,
    pub tone: Tone,
}

/// `p` without one trailing carriage return.
pub open spec fn strip_cr(p: Seq<char>) -> Seq<char> {
    if p.len() > 0 && p.last() == '\r' {
        p.drop_last()
    } else {
        p
    }
}

/// The lines of `s` as `str::lines` yields them: the pieces between line
/// feeds, each without a carriage return before its line feed; a last piece
/// that no line feed ends is kept as it is, when it is not empty.
pub open spec fn text_lines(s: Seq<char>) -> Seq<Seq<char>> {
    let pieces = split_by(s, Separator::Char('\n'));
    let front = pieces.take(pieces.len() - 1).map_values(|p: Seq<char>| strip_cr(p));
    if pieces.last().len() == 0 {
        front
    } else {
        front.push(pieces.last())
    }
}

/// How the sender of a message is shown.
pub open spec fn sender_tone(m: ChatMessage) -> Tone {
    if m.is_error {
        Tone::ErrorSender
    } else if m.is_system {
        Tone::SystemSender
    } else if m.sender@ == "User"@ {
        Tone::UserSender
    } else {
        Tone::ExpertSender
    }
}

/// How the lines of a message are shown.
pub open spec fn content_tone(m: ChatMessage) -> Tone {
    if m.is_error {
        Tone::ErrorText
    } else if m.is_system {
        Tone::MutedText
    } else {
        Tone::NormalText
    }
}

/// The lines of one message: its sender, its content line by line, and a
/// blank line.
pub open spec fn message_lines(m: ChatMessage) -> Seq<(Seq<char>, Tone)> {
    seq![(m.sender@ + ": "@, sender_tone(m))]
        + text_lines(m.content@).map_values(|l: Seq<char>| (l, content_tone(m)))
        + seq![(Seq::<char>::empty(), Tone::Blank)]
}

/// The lines of the first `k` messages.
pub open spec fn transcript_lines(ms: Seq<ChatMessage>, k: int) -> Seq<(Seq<char>, Tone)>
    decreases k,
{
    if k <= 0 {
        seq![]
    } else {
        transcript_lines(ms, k - 1) + message_lines(ms[k - 1])
    }
}

/// A line as plain values.
pub open spec fn line_views(ls: Seq<ChatLine>) -> Seq<(Seq<char>, Tone)> {
    ls.map_values(|l: ChatLine| (l.text@, l.tone))
}

fn strip_cr_exec(p: &Vec<char>) -> (r: Vec<char>)
    ensures
        r@ == strip_cr(p@),
{
    let n = p.len();
    if n > 0 && p[n - 1] == '\r' {
        let mut r: Vec<char> = Vec::new();
        let mut i: usize = 0;
        while i < n - 1
            invariant
                n == p@.len(),
                n > 0,
                i <= n - 1,
                r@ == p@.take(i as int),
            decreases n - 1 - i,
        {
            r.push(p[i]);
            assert(p@.take(i + 1) =~= p@.take(i as int).push(p@[i as int]));
            i = i + 1;
        }
        assert(p@.take(n - 1) =~= p@.drop_last());
        r
    } else {
        p.clone()
    }
}

/// The lines of `s`, as `str::lines` yields them.
pub fn lines_of(s: &str) -> (r: Vec<String>)
    ensures
        string_views_of(r@) == text_lines(s@),
{
    let cs = chars_of(s);
    let pieces = split_pieces(&cs, &Separator::Char('\n'));
    let ghost ps = vec_views(pieces@);
    proof {
        lemma_split_nonempty_char(s@);
    }
    let n = pieces.len();
    let mut r: Vec<String> = Vec::new();
    let mut i: usize = 0;
    while i + 1 < n
        invariant
            n == pieces@.len(),
            n >= 1,
            ps == vec_views(pieces@),
            i <= n - 1,
            string_views_of(r@) == ps.take(i as int).map_values(|p: Seq<char>| strip_cr(p)),
        decreases n - i,
    {
        let stripped = strip_cr_exec(&pieces[i]);
        let line = string_of(&stripped);
        let ghost before = r@;
        r.push(line);
        assert(ps.take(i + 1) =~= ps.take(i as int).push(ps[i as int]));
        assert(string_views_of(r@) =~= string_views_of(before).push(line@));
        assert(ps.take(i + 1).map_values(|p: Seq<char>| strip_cr(p)) =~= ps.take(i as int).map_values(
            |p: Seq<char>| strip_cr(p),
        ).push(strip_cr(ps[i as int])));
        i = i + 1;
    }
    let last = &pieces[n - 1];
    if last.len() > 0 {
        let line = string_of(last);
        let ghost before = r@;
        r.push(line);
        assert(string_views_of(r@) =~= string_views_of(before).push(line@));
    }
    r
}

/// The views of a sequence of strings.
pub open spec fn string_views_of(v: Seq<String>) -> Seq<Seq<char>> {
    v.map_values(|x: String| x@)
}

proof fn lemma_split_nonempty_char(s: Seq<char>)
    ensures
        split_by(s, Separator::Char('\n')).len() >= 1,
    decreases s.len(),
{
    if s.len() > 0 {
        lemma_split_nonempty_char(s.drop_last());
    }
}

fn tone_of_sender(m: &ChatMessage) -> (t: Tone)
    ensures
        t == sender_tone(*m),
{
    if m.is_error {
        Tone::ErrorSender
    } else if m.is_system {
        Tone::SystemSender
    } else if crate::text::chars_eq(&chars_of(m.sender.as_str()), "User") {
        Tone::UserSender
    } else {
        Tone::ExpertSender
    }
}

fn tone_of_content(m: &ChatMessage) -> (t: Tone)
    ensures
        t == content_tone(*m),
{
    if m.is_error {
        Tone::ErrorText
    } else if m.is_system {
        Tone::MutedText
    } else {
        Tone::NormalText
    }
}

/// The lines the chat shows for the messages, in order: for each message its
/// sender, its content line by line, and a blank line.
pub fn transcript(messages: &Vec<ChatMessage>) -> (r: Vec<ChatLine>)
    ensures
        line_views(r@) == transcript_lines(messages@, messages@.len() as int),
{
    let mut r: Vec<ChatLine> = Vec::new();
    let mut i: usize = 0;
    while i < messages.len()
        invariant
            i <= messages@.len(),
            line_views(r@) == transcript_lines(messages@, i as int),
        decreases messages@.len() - i,
    {
        let m = &messages[i];
        let ghost before = line_views(r@);
        let mut head = String::from_str(m.sender.as_str());
        head.append(": ");
        r.push(ChatLine { text: head, tone: tone_of_sender(m) });
        let ct = tone_of_content(m);
        let ls = lines_of(m.content.as_str());
        let ghost tl = text_lines(m.content@);
        let mut j: usize = 0;
        while j < ls.len()
            invariant
                j <= ls@.len(),
                string_views_of(ls@) == tl,
                ct == content_tone(*m),
                line_views(r@) == before + seq![(m.sender@ + ": "@, sender_tone(*m))]
                    + tl.take(j as int).map_values(|l: Seq<char>| (l, ct)),
            decreases ls@.len() - j,
        {
            let ghost prev = r@;
            r.push(ChatLine { text: ls[j].clone(), tone: ct });
            assert(tl[j as int] == ls@[j as int]@);
            assert(tl.take(j + 1).map_values(|l: Seq<char>| (l, ct)) =~= tl.take(j as int).map_values(
                |l: Seq<char>| (l, ct),
            ).push((tl[j as int], ct)));
            assert(line_views(r@) =~= line_views(prev).push((ls@[j as int]@, ct)));
            j = j + 1;
        }
        assert(tl.take(j as int) =~= tl);
        let ghost prev = r@;
        r.push(ChatLine { text: String::new(), tone: Tone::Blank });
        assert(line_views(r@) =~= line_views(prev).push((Seq::<char>::empty(), Tone::Blank)));
        assert(line_views(r@) =~= transcript_lines(messages@, i + 1));
        i = i + 1;
    }
    r
}

/// How far the chat is scrolled down, in lines from its top: a chat of
/// `content_lines` lines (counted in a `u16`, as the screen does) in an area
/// of `area_height` rows, two of them borders, shown `scroll` lines (counted
/// in a `u16` too) above its bottom.
pub fn chat_scroll(content_lines: usize, area_height: u16, scroll: usize) -> (r: u16)
    ensures
        ({
            let content = content_lines as u16;
            let room: int = if area_height >= 2 { area_height - 2 } else { 0 };
            let max: int = if content > room { content - room } else { 0 };
            let back = scroll as u16;
            r == (if max > back { max - back } else { 0 })
        }),
{
    #[verifier::truncate]
    let content: u16 = content_lines as u16;
    let room = area_height.saturating_sub(2);
    let max = if content > room { content - room } else { 0 };
    #[verifier::truncate]
    let back: u16 = scroll as u16;
    max.saturating_sub(back)
}

/// The title of the input box.
pub fn input_title(is_loading: bool) -> (r: String)
    ensures
        r@ == (if is_loading { " Carregando... "@ } else { " Digite sua mensagem (/ajuda para comandos) "@ }),
{
    if is_loading {
        String::from_str(" Carregando... ")
    } else {
        String::from_str(" Digite sua mensagem (/ajuda para comandos) ")
    }
}

/// The status bar's word on the active expert.
pub fn active_expert_label(name: &Option<String>) -> (r: String)
    ensures
        r@ == (match name {
            Some(n) => "Especialista Ativo: "@ + n@,
            None => "Nenhum especialista selecionado (/persona)"@,
        }),
{
    match name {
        Some(n) => {
            let mut s = String::from_str("Especialista Ativo: ");
            s.append(n.as_str());
            s
        },
        None => String::from_str("Nenhum especialista selecionado (/persona)"),
    }
}

} // verus!
