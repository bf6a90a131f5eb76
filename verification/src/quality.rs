//! Quality assurance: manipulation detection and response quality analysis.

use vstd::prelude::*;
use crate::text::{
    chars_of, contains_any, contains_sub, contains_any_of, lower_chars, lowercase, str_views, string_views,
    to_lowercase, string_of,
};
use crate::clock::{new_uuid, now};
use crate::patterns::{case_insensitive_literal, ci_literal, pattern_compiles, pattern_matches, regex_compiles, regex_leftmost};
use crate::models::quality::{ManipulationAttempt, ManipulationSeverity};

verus! {

/// Phrases by which a response expresses uncertainty.
pub open spec fn uncertainty_phrases() -> Seq<Seq<char>> {
    seq![
        "not certain"@, "not sure"@, "i don't know"@, "i'm unsure"@, "could be"@, "might be"@,
        "possibly"@, "probably"@, "uncertain"@, "cannot determine"@, "need more information"@,
        "hard to say"@, "não sei"@, "não tenho certeza"@, "pode ser"@, "possivelmente"@,
        "talvez"@, "incerto"@, "não é possível afirmar"@,
    ]
}

/// Phrases by which a response sends the student to another expert.
pub open spec fn redirection_phrases() -> Seq<Seq<char>> {
    seq![
        "consult"@, "ask"@, "speak with"@, "talk to"@, "refer to"@, "that's a question for"@,
        "you should check with"@, "consulte"@, "pergunte"@, "fale com"@,
        "isso é uma questão para"@,
    ]
}

/// Phrases by which a response refers to earlier decisions or consultations.
pub open spec fn history_phrases() -> Seq<Seq<char>> {
    seq![
        "as you mentioned"@, "previously"@, "earlier"@, "you decided"@,
        "based on your decision"@, "as we discussed"@, "recall that"@, "como mencionou"@,
        "anteriormente"@, "como discutimos"@, "com base na sua decisão"@, "você decidiu"@,
    ]
}

/// Response quality analyzer: detects uncertainty expression, redirection and
/// history references in persona responses.
pub struct ResponseQualityAnalyzer;

impl ResponseQualityAnalyzer {
    /// Detect if the response expresses appropriate uncertainty.
    pub fn detects_uncertainty(response: &str) -> (r: bool)
        ensures
            r == contains_any(lowercase(response@), uncertainty_phrases()),
    {
        let lower = lower_chars(response);
        let phrases = vec![
            "not certain", "not sure", "i don't know", "i'm unsure", "could be", "might be",
            "possibly", "probably", "uncertain", "cannot determine", "need more information",
            "hard to say", "não sei", "não tenho certeza", "pode ser", "possivelmente",
            "talvez", "incerto", "não é possível afirmar",
        ];
        assert(str_views(phrases@) =~= uncertainty_phrases());
        contains_any_of(&lower, &phrases)
    }

    /// Detect if the response redirects the student to another expert.
    pub fn detects_redirection(response: &str) -> (r: bool)
        ensures
            r == contains_any(lowercase(response@), redirection_phrases()),
    {
        let lower = lower_chars(response);
        let phrases = vec![
            "consult", "ask", "speak with", "talk to", "refer to", "that's a question for",
            "you should check with", "consulte", "pergunte", "fale com",
            "isso é uma questão para",
        ];
        assert(str_views(phrases@) =~= redirection_phrases());
        contains_any_of(&lower, &phrases)
    }

    /// Detect if the response references previous decisions or consultations.
    pub fn detects_history_reference(response: &str) -> (r: bool)
        ensures
            r == contains_any(lowercase(response@), history_phrases()),
    {
        let lower = lower_chars(response);
        let phrases = vec![
            "as you mentioned", "previously", "earlier", "you decided",
            "based on your decision", "as we discussed", "recall that", "como mencionou",
            "anteriormente", "como discutimos", "com base na sua decisão", "você decidiu",
        ];
        assert(str_views(phrases@) =~= history_phrases());
        contains_any_of(&lower, &phrases)
    }
}


/// Whether the case-insensitive pattern for the literal text `pattern`
/// compiles (it may not when the program exceeds the regex crate's size
/// limit).
pub open spec fn literal_pattern_compiles(pattern: Seq<char>) -> bool {
    regex_compiles(ci_literal(pattern))
}

/// Whether the case-insensitive pattern for the literal text `pattern`
/// matches somewhere in `text`.
pub open spec fn literal_pattern_matches(pattern: Seq<char>, text: Seq<char>) -> bool {
    regex_leftmost(ci_literal(pattern), text) is Some
}

/// Whether the case-insensitive pattern for `pattern` compiles.
fn compile_literal_pattern(pattern: &str) -> (r: bool)
    ensures
        r == literal_pattern_compiles(pattern@),
{
    let re = case_insensitive_literal(pattern);
    pattern_compiles(re.as_str())
}

/// Whether the case-insensitive pattern for `pattern` matches in `text`.
fn literal_pattern_found(pattern: &str, text: &str) -> (r: bool)
    requires
        literal_pattern_compiles(pattern@),
    ensures
        r == literal_pattern_matches(pattern@, text@),
        contains_sub(text@, pattern@) ==> r,
{
    let re = case_insensitive_literal(pattern);
    pattern_matches(re.as_str(), text)
}

/// Default manipulation patterns in English.
pub open spec fn english_patterns() -> Seq<Seq<char>> {
    seq![
        "you are now"@, "ignore previous"@, "ignore your"@, "act as"@, "forget your role"@,
        "forget you're"@, "forget you are"@, "pretend you're"@, "pretend you are"@,
        "from now on"@, "new instructions"@, "override"@, "disregard"@,
    ]
}

/// Default manipulation patterns in Portuguese.
pub open spec fn portuguese_patterns() -> Seq<Seq<char>> {
    seq![
        "você agora é"@, "voce agora e"@, "ignore as instruções"@, "ignore as instrucoes"@,
        "ignore seu papel"@, "aja como"@, "esqueça seu papel"@, "esqueca seu papel"@,
        "esqueça quem você é"@, "a partir de agora"@, "novas instruções"@, "novas instrucoes"@,
        "desconsidere"@, "finja que você é"@, "finja que voce e"@, "você é agora"@,
        "voce e agora"@, "mude seu papel"@, "ignore suas regras"@,
    ]
}

/// The default patterns: English, then Portuguese.
pub open spec fn default_manipulation_patterns() -> Seq<Seq<char>> {
    english_patterns() + portuguese_patterns()
}

/// Some pattern of `all` equals `p` once both are lowercased.
pub open spec fn covered(all: Seq<Seq<char>>, p: Seq<char>) -> bool {
    exists|k: int| 0 <= k < all.len() && lowercase(#[trigger] all[k]) == lowercase(p)
}

/// `all` followed by each custom pattern not already covered, case-insensitively,
/// by the patterns before it.
pub open spec fn merge_custom(all: Seq<Seq<char>>, custom: Seq<Seq<char>>) -> Seq<Seq<char>>
    decreases custom.len(),
{
    if custom.len() == 0 {
        all
    } else {
        let prev = merge_custom(all, custom.drop_last());
        if covered(prev, custom.last()) {
            prev
        } else {
            prev.push(custom.last())
        }
    }
}

/// The patterns that matched `input`: pattern `i` of the compiled list is
/// reported by the raw pattern at the same index, among the first `n`.
pub open spec fn detected_among(
    compiled: Seq<Seq<char>>,
    raw: Seq<Seq<char>>,
    input: Seq<char>,
    n: int,
) -> Seq<Seq<char>>
    decreases n,
{
    if n <= 0 {
        seq![]
    } else {
        let prev = detected_among(compiled, raw, input, n - 1);
        if literal_pattern_matches(compiled[n - 1], input) && n - 1 < raw.len() {
            prev.push(raw[n - 1])
        } else {
            prev
        }
    }
}

/// Severity by number of matched patterns: Low (1), Medium (2), High (3+).
pub open spec fn severity_for(count: nat) -> ManipulationSeverity {
    if count >= 3 {
        ManipulationSeverity::High
    } else if count == 2 {
        ManipulationSeverity::Medium
    } else {
        ManipulationSeverity::Low
    }
}

/// Detects manipulation attempts in user input.
pub struct ManipulationDetector {
    patterns: Vec<String>,
    raw_patterns: Vec<String>,
}

impl ManipulationDetector {
    /// Every kept pattern compiles.
    #[verifier::type_invariant]
    spec fn patterns_compile(self) -> bool {
        &&& forall|i: int| 0 <= i < self.patterns@.len() ==> literal_pattern_compiles(#[trigger] self.patterns@[i]@)
        &&& self.patterns@.len() <= self.raw_patterns@.len()
    }

    /// The patterns that compiled, in order.
    pub closed spec fn compiled(self) -> Seq<Seq<char>> {
        string_views(self.patterns@)
    }

    /// The patterns the detector was made with, in order.
    pub closed spec fn raw(self) -> Seq<Seq<char>> {
        string_views(self.raw_patterns@)
    }

    /// Create a new detector with the given patterns, matched case-insensitively.
    pub fn new(patterns: &[String]) -> (r: Self)
        ensures
            r.raw() == string_views(patterns@),
            r.compiled() == string_views(patterns@).filter(|p: Seq<char>| literal_pattern_compiles(p)),
    {
        let ghost all = string_views(patterns@);
        let ghost pred = |p: Seq<char>| literal_pattern_compiles(p);
        let mut compiled: Vec<String> = Vec::new();
        let mut raw: Vec<String> = Vec::new();
        let mut i: usize = 0;
        while i < patterns.len()
            invariant
                i <= patterns@.len(),
                all == string_views(patterns@),
                pred == (|p: Seq<char>| literal_pattern_compiles(p)),
                string_views(compiled@) == all.take(i as int).filter(pred),
                string_views(raw@) == all.take(i as int),
                forall|j: int| 0 <= j < compiled@.len() ==> literal_pattern_compiles(#[trigger] compiled@[j]@),
            decreases patterns@.len() - i,
        {
            let p = &patterns[i];
            proof {
                all.take(i as int).lemma_filter_push(all[i as int], pred);
                assert(all.take(i + 1) =~= all.take(i as int).push(all[i as int]));
            }
            if compile_literal_pattern(p.as_str()) {
                let ghost prev = compiled@;
                compiled.push(p.clone());
                assert(string_views(compiled@) =~= string_views(prev).push(p@));
            }
            let ghost prev_raw = raw@;
            raw.push(p.clone());
            assert(string_views(raw@) =~= string_views(prev_raw).push(p@));
            i = i + 1;
        }
        assert(all.take(i as int) =~= all);
        proof {
            all.lemma_filter_len(pred);
        }
        assert(compiled@.len() <= raw@.len());
        ManipulationDetector { patterns: compiled, raw_patterns: raw }
    }

    /// The default patterns (English + Portuguese) as strings.
    fn default_list() -> (r: Vec<String>)
        ensures
            string_views(r@) == default_manipulation_patterns(),
    {
        let lits = vec![
            "you are now", "ignore previous", "ignore your", "act as", "forget your role",
            "forget you're", "forget you are", "pretend you're", "pretend you are",
            "from now on", "new instructions", "override", "disregard",
            "você agora é", "voce agora e", "ignore as instruções", "ignore as instrucoes",
            "ignore seu papel", "aja como", "esqueça seu papel", "esqueca seu papel",
            "esqueça quem você é", "a partir de agora", "novas instruções", "novas instrucoes",
            "desconsidere", "finja que você é", "finja que voce e", "você é agora",
            "voce e agora", "mude seu papel", "ignore suas regras",
        ];
        assert(str_views(lits@) =~= default_manipulation_patterns());
        let mut r: Vec<String> = Vec::new();
        let mut i: usize = 0;
        while i < lits.len()
            invariant
                i <= lits@.len(),
                string_views(r@) == str_views(lits@).take(i as int),
            decreases lits@.len() - i,
        {
            let ghost prev = r@;
            r.push(String::from_str(lits[i]));
            assert(string_views(r@) =~= string_views(prev).push(lits@[i as int]@));
            assert(str_views(lits@).take(i + 1) =~= str_views(lits@).take(i as int).push(lits@[i as int]@));
            i = i + 1;
        }
        assert(str_views(lits@).take(i as int) =~= str_views(lits@));
        r
    }

    /// Create with default manipulation patterns (English + Portuguese).
    pub fn with_defaults() -> (r: Self)
        ensures
            r.raw() == default_manipulation_patterns(),
            r.compiled() == default_manipulation_patterns().filter(|p: Seq<char>| literal_pattern_compiles(p)),
    {
        let defaults = Self::default_list();
        Self::new(defaults.as_slice())
    }

    /// Create with default patterns merged with custom context-specific
    /// patterns; a custom pattern equal, up to case, to one already present is
    /// left out.
    pub fn with_custom(custom_patterns: &[String]) -> (r: Self)
        ensures
            r.raw() == merge_custom(default_manipulation_patterns(), string_views(custom_patterns@)),
            r.compiled() == merge_custom(default_manipulation_patterns(), string_views(custom_patterns@)).filter(
                |p: Seq<char>| literal_pattern_compiles(p),
            ),
    {
        let mut all = Self::default_list();
        let ghost cs = string_views(custom_patterns@);
        let mut i: usize = 0;
        while i < custom_patterns.len()
            invariant
                i <= custom_patterns@.len(),
                cs == string_views(custom_patterns@),
                string_views(all@) == merge_custom(default_manipulation_patterns(), cs.take(i as int)),
            decreases custom_patterns@.len() - i,
        {
            let pattern = &custom_patterns[i];
            let lower = to_lowercase(pattern.as_str());
            let ghost prev = string_views(all@);
            assert(cs.take(i + 1).drop_last() =~= cs.take(i as int));
            assert(cs.take(i + 1).last() == pattern@);
            let mut found = false;
            let mut k: usize = 0;
            while k < all.len()
                invariant
                    k <= all@.len(),
                    prev == string_views(all@),
                    lower@ == lowercase(pattern@),
                    found <==> exists|j: int| 0 <= j < k && lowercase(#[trigger] prev[j]) == lowercase(pattern@),
                decreases all@.len() - k,
            {
                let lk = to_lowercase(all[k].as_str());
                if lk == lower {
                    found = true;
                }
                assert(prev[k as int] == all@[k as int]@);
                k = k + 1;
            }
            if !found {
                all.push(pattern.clone());
                assert(string_views(all@) =~= prev.push(pattern@));
            }
            i = i + 1;
        }
        assert(cs.take(i as int) =~= cs);
        Self::new(all.as_slice())
    }

    /// Detect manipulation attempts in user input: None for normal input,
    /// otherwise the matched patterns with their severity. The input is never
    /// blocked.
    pub fn detect(&self, input: &str, session_id: &str) -> (r: Option<ManipulationAttempt>)
        ensures
            r is None <==> detected_among(self.compiled(), self.raw(), input@, self.compiled().len() as int).len() == 0,
            r matches Some(a) ==> {
                &&& string_views(a.detected_patterns@) == detected_among(self.compiled(), self.raw(), input@, self.compiled().len() as int)
                &&& a.severity == severity_for(a.detected_patterns@.len())
                &&& a.session_id@ == session_id@
                &&& a.input@ == input@
                &&& !a.blocked
                &&& a.attempt_id@.len() == 36
            },
            (exists|k: int| 0 <= k < self.compiled().len() && contains_sub(input@, #[trigger] self.compiled()[k]))
                ==> r is Some,
    {
        proof { use_type_invariant(self); }
        let ghost comp = self.compiled();
        let ghost raw = self.raw();
        let mut detected: Vec<String> = Vec::new();
        let mut i: usize = 0;
        while i < self.patterns.len()
            invariant
                i <= self.patterns@.len(),
                comp == string_views(self.patterns@),
                raw == string_views(self.raw_patterns@),
                forall|j: int| 0 <= j < self.patterns@.len() ==> literal_pattern_compiles(#[trigger] self.patterns@[j]@),
                string_views(detected@) == detected_among(comp, raw, input@, i as int),
                self.patterns@.len() <= self.raw_patterns@.len(),
                forall|j: int| 0 <= j < i && contains_sub(input@, #[trigger] comp[j]) ==> detected@.len() > 0,
            decreases self.patterns@.len() - i,
        {
            assert(comp[i as int] == self.patterns@[i as int]@);
            if literal_pattern_found(self.patterns[i].as_str(), input) {
                if i < self.raw_patterns.len() {
                    let ghost prev = detected@;
                    detected.push(self.raw_patterns[i].clone());
                    assert(string_views(detected@) =~= string_views(prev).push(raw[i as int]));
                }
            }
            i = i + 1;
        }
        if detected.len() == 0 {
            return None;
        }
        let severity = Self::calculate_severity(detected.as_slice());
        Some(ManipulationAttempt {
            attempt_id: new_uuid(),
            session_id: String::from_str(session_id),
            timestamp: now(),
            input: String::from_str(input),
            detected_patterns: detected,
            severity,
            blocked: false,
        })
    }

    /// Whether the attempt calls for prompt reinforcement (Medium or High severity).
    pub fn requires_reinforcement(attempt: &ManipulationAttempt) -> (r: bool)
        ensures
            r == (attempt.severity == ManipulationSeverity::Medium || attempt.severity
                == ManipulationSeverity::High),
    {
        match attempt.severity {
            ManipulationSeverity::Medium | ManipulationSeverity::High => true,
            ManipulationSeverity::Low => false,
        }
    }

    /// Calculate severity based on number of patterns matched.
    pub fn calculate_severity(patterns: &[String]) -> (r: ManipulationSeverity)
        ensures
            r == severity_for(patterns@.len()),
    {
        if patterns.len() >= 3 {
            ManipulationSeverity::High
        } else if patterns.len() == 2 {
            ManipulationSeverity::Medium
        } else {
            ManipulationSeverity::Low
        }
    }
}

/// Reinforcement is called for exactly when two or more patterns matched.
pub proof fn reinforcement_iff_two_patterns(count: nat)
    ensures
        (severity_for(count) == ManipulationSeverity::Medium || severity_for(count)
            == ManipulationSeverity::High) <==> count >= 2,
{
}

/// Every custom pattern is present after merging, up to case, and the
/// default patterns come first, unchanged.
pub proof fn custom_patterns_merged(defaults: Seq<Seq<char>>, custom: Seq<Seq<char>>)
    ensures
        forall|i: int| 0 <= i < custom.len() ==> covered(merge_custom(defaults, custom), #[trigger] custom[i]),
        merge_custom(defaults, custom).take(defaults.len() as int) == defaults,
        merge_custom(defaults, custom).len() >= defaults.len(),
    decreases custom.len(),
{
    if custom.len() > 0 {
        let c0 = custom.drop_last();
        custom_patterns_merged(defaults, c0);
        let prev = merge_custom(defaults, c0);
        let m = merge_custom(defaults, custom);
        assert forall|i: int| 0 <= i < custom.len() implies covered(m, #[trigger] custom[i]) by {
            if i < custom.len() - 1 {
                assert(custom[i] == c0[i]);
                assert(covered(prev, c0[i]));
                let k = choose|k: int| 0 <= k < prev.len() && lowercase(#[trigger] prev[k]) == lowercase(c0[i]);
                assert(m[k] == prev[k]);
            } else {
                if !covered(prev, custom.last()) {
                    assert(m[prev.len() as int] == custom.last());
                }
            }
        }
        assert(m.take(defaults.len() as int) =~= prev.take(defaults.len() as int));
    } else {
        assert(defaults.take(defaults.len() as int) =~= defaults);
    }
}

/// The default detector keeps every default pattern of the shell, English
/// and Portuguese, among them "ignore your": each is among the patterns it
/// was made with and, when its case-insensitive pattern compiles, among the
/// patterns it matches, so that (by `detect`) an input holding it is never
/// let through.
pub proof fn default_patterns_kept(d: ManipulationDetector)
    requires
        d.raw() == default_manipulation_patterns(),
        d.compiled() == default_manipulation_patterns().filter(|p: Seq<char>| literal_pattern_compiles(p)),
    ensures
        forall|p: Seq<char>| seq![
            "you are now"@, "ignore previous"@, "ignore your"@, "act as"@, "forget your role"@,
            "forget you're"@, "forget you are"@, "pretend you're"@, "pretend you are"@,
            "from now on"@, "new instructions"@, "override"@, "disregard"@,
            "você agora é"@, "voce agora e"@, "ignore as instruções"@, "ignore as instrucoes"@,
            "ignore seu papel"@, "aja como"@, "esqueça seu papel"@, "esqueca seu papel"@,
            "esqueça quem você é"@, "a partir de agora"@, "novas instruções"@, "novas instrucoes"@,
            "desconsidere"@, "finja que você é"@, "finja que voce e"@, "você é agora"@,
            "voce e agora"@, "mude seu papel"@, "ignore suas regras"@,
        ].contains(p) ==> #[trigger] d.raw().contains(p) && (literal_pattern_compiles(p) ==> d.compiled().contains(p)),
{
    let l = seq![
        "you are now"@, "ignore previous"@, "ignore your"@, "act as"@, "forget your role"@,
        "forget you're"@, "forget you are"@, "pretend you're"@, "pretend you are"@,
        "from now on"@, "new instructions"@, "override"@, "disregard"@,
        "você agora é"@, "voce agora e"@, "ignore as instruções"@, "ignore as instrucoes"@,
        "ignore seu papel"@, "aja como"@, "esqueça seu papel"@, "esqueca seu papel"@,
        "esqueça quem você é"@, "a partir de agora"@, "novas instruções"@, "novas instrucoes"@,
        "desconsidere"@, "finja que você é"@, "finja que voce e"@, "você é agora"@,
        "voce e agora"@, "mude seu papel"@, "ignore suas regras"@,
    ];
    assert(default_manipulation_patterns() =~= l);
    let pred = |p: Seq<char>| literal_pattern_compiles(p);
    assert forall|p: Seq<char>| l.contains(p) implies #[trigger] d.raw().contains(p)
        && (literal_pattern_compiles(p) ==> d.compiled().contains(p)) by {
        if literal_pattern_compiles(p) {
            l.lemma_filter_contains_rev(pred, p);
        }
    }
}

} // verus!
