//! Command-line commands: parsing of one line of user input.

use vstd::prelude::*;
use crate::text::{
    chars_eq, chars_of, find_str, join2, first_occurrence, lower_chars, lowercase, slice_chars, split_words,
    string_of, string_views, trim, trim_chars, vec_views, words,
};

verus! {

/// All supported CLI commands.
#[derive(Debug, Clone, PartialEq)]
pub enum Command {
    /// Consult a specific persona: /persona <name>
    Persona { name: String },
    /// Start a meeting with multiple personas: /reuniao <p1> <p2> [p3...] -- <topic>
    Reuniao { personas: Vec<String>, topic: String },
    /// Record a decision: /decisao <description>
    Decisao { description: String },
    /// Display decision history: /historico
    Historico,
    /// Display current context: /contexto
    Contexto,
    /// Display session quality report: /qualidade
    Qualidade,
    /// Display behavioral consistency report: /consistencia [persona_id]
    Consistencia { persona_id: Option<String> },
    /// Display help: /ajuda or /help
    Help,
    /// Send a message to the current active persona
    Message { content: String },
    /// Exit the CLI: /sair or /exit
    Exit,
}

/// Errors during command parsing.
#[derive(Debug, Clone, PartialEq)]
pub enum CommandError {
    UnknownCommand(String),
    MissingArgument { command: String, usage: String },
    TooFewPersonas,
}

/// A command with its texts as character sequences.
pub enum CommandModel {
    Persona { name: Seq<char> },
    Reuniao { personas: Seq<Seq<char>>, topic: Seq<char> },
    Decisao { description: Seq<char> },
    Historico,
    Contexto,
    Qualidade,
    Consistencia { persona_id: Option<Seq<char>> },
    Help,
    Message { content: Seq<char> },
    Exit,
}

/// A command error with its texts as character sequences.
pub enum CommandErrorModel {
    UnknownCommand(Seq<char>),
    MissingArgument { command: Seq<char>, usage: Seq<char> },
    TooFewPersonas,
}

impl View for Command {
    type V = CommandModel;

    open spec fn view(&self) -> CommandModel {
        match self {
            Command::Persona { name } => CommandModel::Persona { name: name@ },
            Command::Reuniao { personas, topic } => CommandModel::Reuniao {
                personas: string_views(personas@),
                topic: topic@,
            },
            Command::Decisao { description } => CommandModel::Decisao { description: description@ },
            Command::Historico => CommandModel::Historico,
            Command::Contexto => CommandModel::Contexto,
            Command::Qualidade => CommandModel::Qualidade,
            Command::Consistencia { persona_id } => CommandModel::Consistencia {
                persona_id: match persona_id {
                    Some(p) => Some(p@),
                    None => None,
                },
            },
            Command::Help => CommandModel::Help,
            Command::Message { content } => CommandModel::Message { content: content@ },
            Command::Exit => CommandModel::Exit,
        }
    }
}

impl View for CommandError {
    type V = CommandErrorModel;

    open spec fn view(&self) -> CommandErrorModel {
        match self {
            CommandError::UnknownCommand(c) => CommandErrorModel::UnknownCommand(c@),
            CommandError::MissingArgument { command, usage } => CommandErrorModel::MissingArgument {
                command: command@,
                usage: usage@,
            },
            CommandError::TooFewPersonas => CommandErrorModel::TooFewPersonas,
        }
    }
}

/// The view of a parse result.
pub open spec fn parse_view(r: Result<Command, CommandError>) -> Result<CommandModel, CommandErrorModel> {
    match r {
        Ok(c) => Ok(c@),
        Err(e) => Err(e@),
    }
}

/// The command word of a trimmed line: everything before the first space.
pub open spec fn command_word(t: Seq<char>) -> Seq<char> {
    match first_occurrence(t, seq![' ']) {
        Some(i) => t.take(i),
        None => t,
    }
}

/// The argument text of a trimmed line: everything after the first space, trimmed.
pub open spec fn argument_text(t: Seq<char>) -> Seq<char> {
    match first_occurrence(t, seq![' ']) {
        Some(i) => trim(t.skip(i + 1)),
        None => seq![],
    }
}

/// The participant part and the topic of meeting arguments, split at the first `--`.
pub open spec fn meeting_parts(args: Seq<char>) -> (Seq<char>, Seq<char>) {
    match first_occurrence(args, "--"@) {
        Some(i) => (trim(args.take(i)), trim(args.skip(i + 2))),
        None => (args, "General discussion"@),
    }
}

/// What a line of input parses to.
pub open spec fn parsed(input: Seq<char>) -> Result<CommandModel, CommandErrorModel> {
    let t = trim(input);
    if t.len() == 0 {
        Ok(CommandModel::Message { content: seq![] })
    } else if t[0] != '/' {
        Ok(CommandModel::Message { content: t })
    } else {
        parsed_command(lowercase(command_word(t)), argument_text(t))
    }
}

/// What a command word (lowercased) with its argument text parses to.
pub open spec fn parsed_command(cmd: Seq<char>, args: Seq<char>) -> Result<CommandModel, CommandErrorModel> {
        if cmd == "/persona"@ {
            if args.len() == 0 {
                Err(CommandErrorModel::MissingArgument { command: "persona"@, usage: "/persona <nome_do_expert>"@ })
            } else {
                Ok(CommandModel::Persona { name: args })
            }
        } else if cmd == "/reuniao"@ || cmd == "/reunião"@ {
            if args.len() == 0 {
                Err(CommandErrorModel::MissingArgument {
                    command: "reuniao"@,
                    usage: "/reuniao <persona1> <persona2> [persona3...] -- <topic>"@,
                })
            } else if words(meeting_parts(args).0).len() < 2 {
                Err(CommandErrorModel::TooFewPersonas)
            } else {
                Ok(CommandModel::Reuniao { personas: words(meeting_parts(args).0), topic: meeting_parts(args).1 })
            }
        } else if cmd == "/decisao"@ || cmd == "/decisão"@ {
            if args.len() == 0 {
                Err(CommandErrorModel::MissingArgument { command: "decisao"@, usage: "/decisao <descrição da decisão>"@ })
            } else {
                Ok(CommandModel::Decisao { description: args })
            }
        } else if cmd == "/historico"@ || cmd == "/histórico"@ {
            Ok(CommandModel::Historico)
        } else if cmd == "/contexto"@ {
            Ok(CommandModel::Contexto)
        } else if cmd == "/qualidade"@ {
            Ok(CommandModel::Qualidade)
        } else if cmd == "/consistencia"@ || cmd == "/consistência"@ {
            Ok(CommandModel::Consistencia { persona_id: if args.len() == 0 { None } else { Some(args) } })
        } else if cmd == "/ajuda"@ || cmd == "/help"@ {
            Ok(CommandModel::Help)
        } else if cmd == "/sair"@ || cmd == "/exit"@ || cmd == "/quit"@ {
            Ok(CommandModel::Exit)
        } else {
            Err(CommandErrorModel::UnknownCommand(cmd))
        }
}

fn strings_of(v: &Vec<Vec<char>>) -> (res: Vec<String>)
    ensures
        string_views(res@) == vec_views(v@),
{
    let mut res: Vec<String> = Vec::new();
    let mut i: usize = 0;
    while i < v.len()
        invariant
            i <= v.len(),
            string_views(res@) == vec_views(v@).take(i as int),
        decreases v.len() - i,
    {
        let st = string_of(&v[i]);
        let ghost prev = res@;
        res.push(st);
        assert(string_views(res@) =~= string_views(prev).push(v@[i as int]@));
        assert(vec_views(v@).take(i + 1) =~= vec_views(v@).take(i as int).push(v@[i as int]@));
        i = i + 1;
    }
    assert(vec_views(v@).take(i as int) =~= vec_views(v@));
    res
}

fn parse_meeting(args: &Vec<char>) -> (r: Result<Command, CommandError>)
    requires
        args@.len() > 0,
    ensures
        parse_view(r) == (if words(meeting_parts(args@).0).len() < 2 {
            Err(CommandErrorModel::TooFewPersonas)
        } else {
            Ok(CommandModel::Reuniao { personas: words(meeting_parts(args@).0), topic: meeting_parts(args@).1 })
        }),
{
    let (persona_part, topic) = match find_str(args, "--") {
        Some(idx) => {
            proof { reveal_strlit("--"); }
            assert(idx + 2 <= args.len());
            let p = trim_chars(&slice_chars(args, 0, idx));
            let t = trim_chars(&slice_chars(args, idx + 2, args.len()));
            assert(args@.subrange(0, idx as int) =~= args@.take(idx as int));
            assert(args@.subrange(idx + 2, args@.len() as int) =~= args@.skip(idx + 2));
            (p, string_of(&t))
        },
        None => (args.clone(), String::from_str("General discussion")),
    };
    let personas = split_words(&persona_part);
    if personas.len() < 2 {
        Err(CommandError::TooFewPersonas)
    } else {
        Ok(Command::Reuniao { personas: strings_of(&personas), topic })
    }
}

fn missing(command: &str, usage: &str) -> (r: Result<Command, CommandError>)
    ensures
        parse_view(r) == Err::<CommandModel, CommandErrorModel>(
            CommandErrorModel::MissingArgument { command: command@, usage: usage@ },
        ),
{
    Err(CommandError::MissingArgument { command: String::from_str(command), usage: String::from_str(usage) })
}

/// Parse a raw user input string into a Command.
pub fn parse_command(input: &str) -> (r: Result<Command, CommandError>)
    ensures
        parse_view(r) == parsed(input@),
{
    let trimmed = trim_chars(&chars_of(input));
    if trimmed.len() == 0 {
        return Ok(Command::Message { content: String::new() });
    }
    if trimmed[0] != '/' {
        return Ok(Command::Message { content: string_of(&trimmed) });
    }
    let (head, args) = split_command(&trimmed);
    let cmd = lower_chars(string_of(&head).as_str());
    dispatch(&cmd, &args)
}

fn split_command(trimmed: &Vec<char>) -> (r: (Vec<char>, Vec<char>))
    ensures
        r.0@ == command_word(trimmed@),
        r.1@ == argument_text(trimmed@),
{
    let (head, args) = match find_str(&trimmed, " ") {
        Some(i) => {
            proof { reveal_strlit(" "); }
            assert(" "@ =~= seq![' ']);
            assert(trimmed@.subrange(0, i as int) =~= trimmed@.take(i as int));
            assert(trimmed@.subrange(i + 1, trimmed@.len() as int) =~= trimmed@.skip(i + 1));
            (slice_chars(&trimmed, 0, i), trim_chars(&slice_chars(&trimmed, i + 1, trimmed.len())))
        },
        None => {
            proof { reveal_strlit(" "); }
            assert(" "@ =~= seq![' ']);
            (trimmed.clone(), Vec::new())
        },
    };
    assert(head@ == command_word(trimmed@));
    assert(args@ =~= argument_text(trimmed@));
    (head, args)
}

#[verifier::rlimit(50)]
fn dispatch(cmd: &Vec<char>, args: &Vec<char>) -> (r: Result<Command, CommandError>)
    ensures
        parse_view(r) == parsed_command(cmd@, args@),
{
    let cmd = cmd;
    if chars_eq(cmd, "/persona") {
        if args.len() == 0 {
            missing("persona", "/persona <nome_do_expert>")
        } else {
            Ok(Command::Persona { name: string_of(args) })
        }
    } else if chars_eq(cmd, "/reuniao") || chars_eq(cmd, "/reunião") {
        if args.len() == 0 {
            missing("reuniao", "/reuniao <persona1> <persona2> [persona3...] -- <topic>")
        } else {
            parse_meeting(args)
        }
    } else if chars_eq(cmd, "/decisao") || chars_eq(cmd, "/decisão") {
        if args.len() == 0 {
            missing("decisao", "/decisao <descrição da decisão>")
        } else {
            Ok(Command::Decisao { description: string_of(args) })
        }
    } else if chars_eq(cmd, "/historico") || chars_eq(cmd, "/histórico") {
        Ok(Command::Historico)
    } else if chars_eq(cmd, "/contexto") {
        Ok(Command::Contexto)
    } else if chars_eq(cmd, "/qualidade") {
        Ok(Command::Qualidade)
    } else if chars_eq(cmd, "/consistencia") || chars_eq(cmd, "/consistência") {
        let persona_id = if args.len() == 0 { None } else { Some(string_of(args)) };
        Ok(Command::Consistencia { persona_id })
    } else if chars_eq(cmd, "/ajuda") || chars_eq(cmd, "/help") {
        Ok(Command::Help)
    } else if chars_eq(cmd, "/sair") || chars_eq(cmd, "/exit") || chars_eq(cmd, "/quit") {
        Ok(Command::Exit)
    } else {
        Err(CommandError::UnknownCommand(string_of(cmd)))
    }
}


/// The help screen listing every command.
pub open spec fn help_screen() -> Seq<char> {
    HELP_TEXT@
}

/// The help screen.
pub const HELP_TEXT: &'static str = r#"
╔══════════════════════════════════════════════════════════╗
║           Terminais de Especialistas de Domínio          ║
╠══════════════════════════════════════════════════════════╣
║                                                          ║
║  /persona <nome>      Consultar um especialista          ║
║  /reuniao <p1> <p2>   Iniciar reunião com especialistas  ║
║     -- <tópico>       (tópico oppcional da discussão)    ║
║  /decisao <desc>      Registrar uma decisão de projeto   ║
║  /historico           Mostrar histórico de decisões      ║
║  /contexto            Mostrar contexto de cenário atual  ║
║  /qualidade           Exibir relatório de qualidade      ║
║  /consistencia [id]   Exibir consistência do modelo      ║
║  /ajuda               Exibir esta ajuda                  ║
║  /sair                Sair do sistema com segurança      ║
║                                                          ║
║  Durante uma consulta, digite sua mensagem diretamente   ║
║  para continuar a conversa com o especialista ativo.     ║
║                                                          ║
╚══════════════════════════════════════════════════════════╝
"#;

/// Generate help text for all available commands.
pub fn help_text() -> (r: String)
    ensures
        r@ == help_screen(),
{
    String::from_str(HELP_TEXT)
}


/// The message of a command error.
pub open spec fn command_error_text(e: CommandErrorModel) -> Seq<char> {
    match e {
        CommandErrorModel::UnknownCommand(c) =>
            "Comando desconhecido: '"@ + c + "'. Digite /ajuda para ver os comandos."@,
        CommandErrorModel::MissingArgument { command, usage } =>
            "Argumento ausente para /"@ + command + ". Uso: "@ + usage,
        CommandErrorModel::TooFewPersonas => "Participantes insuficientes. Mínimo de 2 requiredos."@,
    }
}

impl CommandError {
    /// The message shown for this error.
    pub fn message(&self) -> (r: String)
        ensures
            r@ == command_error_text(self@),
    {
        match self {
            CommandError::UnknownCommand(c) => {
                let mut r = join2("Comando desconhecido: '", c.as_str());
                r.append("'. Digite /ajuda para ver os comandos.");
                r
            },
            CommandError::MissingArgument { command, usage } => {
                let mut r = join2("Argumento ausente para /", command.as_str());
                r.append(". Uso: ");
                r.append(usage.as_str());
                r
            },
            CommandError::TooFewPersonas => String::from_str("Participantes insuficientes. Mínimo de 2 requiredos."),
        }
    }
}

} // verus!
