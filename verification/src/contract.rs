//! The context contract: versioning, required layout and validation results.

use vstd::prelude::*;
use crate::text::{
    chars_of, decimal, decimal_string, parse_unsigned, parse_unsigned_chars, split_by, split_pieces,
    vec_views, Separator, lemma_decimal_free_of_dot, lemma_split_free, lemma_split_append_free,
    lemma_parse_decimal, string_views, str_views, join2, join3,
};

verus! {

/// Semantic version of a context contract.
#[derive(Debug, Clone, Copy, PartialEq, Eq)]
pub struct SemanticVersion {
    pub major: u32,
    pub minor: u32,
    pub patch: u32,
}

/// `a` is compatible with `b`: same major version and `a` is not older than `b`.
pub open spec fn compatible(a: SemanticVersion, b: SemanticVersion) -> bool {
    a.major == b.major && (a.minor > b.minor || (a.minor == b.minor && a.patch >= b.patch))
}

/// The three components of a version written as `major.minor.patch`, when
/// `s` is such a text: exactly three pieces between dots, each an unsigned
/// 32-bit decimal number.
pub open spec fn parse_version(s: Seq<char>) -> Option<SemanticVersion> {
    let parts = split_by(s, Separator::Char('.'));
    if parts.len() == 3 && parse_unsigned(parts[0], u32::MAX as nat) is Some && parse_unsigned(
        parts[1],
        u32::MAX as nat,
    ) is Some && parse_unsigned(parts[2], u32::MAX as nat) is Some {
        Some(
            SemanticVersion {
                major: parse_unsigned(parts[0], u32::MAX as nat)->0 as u32,
                minor: parse_unsigned(parts[1], u32::MAX as nat)->0 as u32,
                patch: parse_unsigned(parts[2], u32::MAX as nat)->0 as u32,
            },
        )
    } else {
        None
    }
}

/// The text `major.minor.patch`.
pub open spec fn version_text(v: SemanticVersion) -> Seq<char> {
    decimal(v.major as nat) + seq!['.'] + decimal(v.minor as nat) + seq!['.'] + decimal(
        v.patch as nat,
    )
}

impl SemanticVersion {
    pub fn new(major: u32, minor: u32, patch: u32) -> (v: Self)
        ensures
            v == (SemanticVersion { major, minor, patch }),
    {
        Self { major, minor, patch }
    }

    /// Compatible means same major version and this version >= other.
    pub fn is_compatible_with(&self, other: &SemanticVersion) -> (r: bool)
        ensures
            r == compatible(*self, *other),
    {
        self.major == other.major && (self.minor > other.minor || (self.minor == other.minor
            && self.patch >= other.patch))
    }

    /// Parse from a string like "1.0.0".
    pub fn parse(s: &str) -> (r: Result<Self, ContractError>)
        ensures
            r matches Ok(v) ==> parse_version(s@) == Some(v),
            r matches Err(e) ==> parse_version(s@) is None && (e matches ContractError::InvalidVersion(
                m,
            ) && m@ == s@),
    {
        let cs = chars_of(s);
        let parts = split_pieces(&cs, &Separator::Char('.'));
        if parts.len() != 3 {
            return Err(ContractError::InvalidVersion(String::from_str(s)));
        }
        let major = parse_unsigned_chars(&parts[0], u32::MAX as u64);
        let minor = parse_unsigned_chars(&parts[1], u32::MAX as u64);
        let patch = parse_unsigned_chars(&parts[2], u32::MAX as u64);
        assert(vec_views(parts@)[0] == parts@[0]@);
        assert(vec_views(parts@)[1] == parts@[1]@);
        assert(vec_views(parts@)[2] == parts@[2]@);
        match (major, minor, patch) {
            (Some(a), Some(b), Some(c)) => Ok(Self { major: a as u32, minor: b as u32, patch: c as u32 }),
            _ => Err(ContractError::InvalidVersion(String::from_str(s))),
        }
    }

    /// The text `major.minor.patch`.
    pub fn version_string(&self) -> (res: String)
        ensures
            res@ == version_text(*self),
    {
        let mut res = decimal_string(self.major as u64);
        res.append(".");
        let minor = decimal_string(self.minor as u64);
        res.append(minor.as_str());
        res.append(".");
        let patch = decimal_string(self.patch as u64);
        res.append(patch.as_str());
        proof { reveal_strlit("."); }
        assert(res@ =~= version_text(*self));
        res
    }
}

/// Compatibility is reflexive: every version is compatible with itself.
pub proof fn compatible_reflexive(v: SemanticVersion)
    ensures
        compatible(v, v),
{
}

/// Compatibility is transitive.
pub proof fn compatible_transitive(a: SemanticVersion, b: SemanticVersion, c: SemanticVersion)
    requires
        compatible(a, b),
        compatible(b, c),
    ensures
        compatible(a, c),
{
}

/// Two versions compatible with each other are the same version.
pub proof fn compatible_antisymmetric(a: SemanticVersion, b: SemanticVersion)
    requires
        compatible(a, b),
        compatible(b, a),
    ensures
        a == b,
{
}

/// Rendering a version and parsing the text back gives the same version.
pub proof fn version_text_round_trip(v: SemanticVersion)
    ensures
        parse_version(version_text(v)) == Some(v),
{
    let dot = Separator::Char('.');
    let a = decimal(v.major as nat);
    let b = decimal(v.minor as nat);
    let c = decimal(v.patch as nat);
    lemma_decimal_free_of_dot(v.major as nat);
    lemma_decimal_free_of_dot(v.minor as nat);
    lemma_decimal_free_of_dot(v.patch as nat);
    lemma_split_free(a, dot);
    let t1 = a + seq!['.'];
    assert(t1.drop_last() =~= a);
    assert(split_by(t1, dot) =~= seq![a, Seq::<char>::empty()]);
    lemma_split_append_free(t1, b, dot);
    let t2 = t1 + b;
    assert(split_by(t2, dot) =~= seq![a, b]);
    let t3 = t2 + seq!['.'];
    assert(t3.drop_last() =~= t2);
    assert(split_by(t3, dot) =~= seq![a, b, Seq::<char>::empty()]);
    lemma_split_append_free(t3, c, dot);
    assert(split_by(t3 + c, dot) =~= seq![a, b, c]);
    assert(t3 + c =~= version_text(v));
    lemma_parse_decimal(v.major as nat, u32::MAX as nat);
    lemma_parse_decimal(v.minor as nat, u32::MAX as nat);
    lemma_parse_decimal(v.patch as nat, u32::MAX as nat);
}

/// Errors related to Context Contract operations.
#[derive(Debug)]
pub enum ContractError {
    InvalidVersion(String),
    VersionMismatch { expected: String, found: String },
    MissingFile(String),
    MissingDirectory(String),
    InvalidJson { file: String, error: String },
    SchemaValidation { file: String, errors: Vec<String> },
    MissingField { file: String, field: String },
    /// An I/O failure, described by its message.
    Io(String),
}

/// The message of a contract error.
pub open spec fn contract_error_text(e: ContractError) -> Seq<char> {
    match e {
        ContractError::InvalidVersion(v) => "Invalid contract version: "@ + v@,
        ContractError::VersionMismatch { expected, found } =>
            "Contract version mismatch: expected "@ + expected@ + ", found "@ + found@,
        ContractError::MissingFile(f) => "Missing required file: "@ + f@,
        ContractError::MissingDirectory(d) => "Missing required directory: "@ + d@,
        ContractError::InvalidJson { file, error } => "Invalid JSON in "@ + file@ + ": "@ + error@,
        ContractError::SchemaValidation { file, errors } =>
            "Schema validation failed for "@ + file@ + ": "@ + crate::validation::debug_list_text(string_views(errors@)),
        ContractError::MissingField { file, field } => "Missing required field '"@ + field@ + "' in "@ + file@,
        ContractError::Io(m) => "IO error: "@ + m@,
    }
}

impl ContractError {
    /// The error's message.
    pub fn message(&self) -> (r: String)
        ensures
            r@ == contract_error_text(*self),
    {
        match self {
            ContractError::InvalidVersion(v) => join2("Invalid contract version: ", v.as_str()),
            ContractError::VersionMismatch { expected, found } => {
                let mut r = join3("Contract version mismatch: expected ", expected.as_str(), ", found ");
                r.append(found.as_str());
                r
            },
            ContractError::MissingFile(f) => join2("Missing required file: ", f.as_str()),
            ContractError::MissingDirectory(d) => join2("Missing required directory: ", d.as_str()),
            ContractError::InvalidJson { file, error } => {
                let mut r = join3("Invalid JSON in ", file.as_str(), ": ");
                r.append(error.as_str());
                r
            },
            ContractError::SchemaValidation { file, errors } => {
                let l = crate::validation::debug_list(errors);
                let mut r = join3("Schema validation failed for ", file.as_str(), ": ");
                r.append(l.as_str());
                r
            },
            ContractError::MissingField { file, field } => {
                let mut r = join3("Missing required field '", field.as_str(), "' in ");
                r.append(file.as_str());
                r
            },
            ContractError::Io(m) => join2("IO error: ", m.as_str()),
        }
    }
}


/// Contract metadata stored in contract.json.
#[derive(Debug, Clone, PartialEq)]
pub struct ContractMetadata {
    pub contract_version: String,
    pub domain_id: String,
    pub domain_name: String,
    pub description: String,
    pub author: String,
    pub created: String,
    pub updated: String,
}

/// Domain configuration stored in config.json.
#[derive(Debug, Clone, PartialEq)]
pub struct DomainConfig {
    pub ollama_model: String,
    pub session_persistence_interval: u64,
    pub meeting_turn_limit: u32,
    pub prompt_template: String,
    pub streaming_enabled: bool,
    pub manipulation_detection: ManipulationDetectionConfig,
}

/// Default session persistence interval, in seconds.
pub fn default_persistence_interval() -> (r: u64)
    ensures
        r == 60,
{
    60
}

/// Default number of turns after which a meeting ends.
pub fn default_meeting_turn_limit() -> (r: u32)
    ensures
        r == 10,
{
    10
}

/// Default prompt template name.
pub fn default_prompt_template() -> (r: String)
    ensures
        r@ == "default"@,
{
    String::from_str("default")
}

/// Streaming is on by default.
pub fn default_streaming() -> (r: bool)
    ensures
        r,
{
    true
}

/// Detection and logging are on by default.
pub fn default_enabled() -> (r: bool)
    ensures
        r,
{
    true
}

/// The manipulation patterns a context gets when it names none.
pub open spec fn default_pattern_texts() -> Seq<Seq<char>> {
    seq!["you are now"@, "ignore previous"@, "act as"@, "forget your role"@]
}

/// The default manipulation patterns.
pub fn default_patterns() -> (r: Vec<String>)
    ensures
        string_views(r@) == default_pattern_texts(),
{
    let mut r: Vec<String> = Vec::new();
    r.push(String::from_str("you are now"));
    r.push(String::from_str("ignore previous"));
    r.push(String::from_str("act as"));
    r.push(String::from_str("forget your role"));
    assert(string_views(r@) =~= default_pattern_texts());
    r
}

/// Manipulation detection configuration.
#[derive(Debug, Clone, PartialEq)]
pub struct ManipulationDetectionConfig {
    pub enabled: bool,
    pub log_attempts: bool,
    pub patterns: Vec<String>,
}

impl Default for ManipulationDetectionConfig {
    fn default() -> (r: Self)
        ensures
            r.enabled,
            r.log_attempts,
            string_views(r.patterns@) == default_pattern_texts(),
    {
        Self { enabled: true, log_attempts: true, patterns: default_patterns() }
    }
}

/// Expected directory structure for a Context Repository.
pub struct ContextStructure;

impl ContextStructure {
    pub const CONTRACT_FILE: &'static str = "contract.json";
    pub const CONFIG_FILE: &'static str = "config.json";
    pub const PERSONAS_DIR: &'static str = "personas";
    pub const WORLD_MODEL_DIR: &'static str = "world-model";
    pub const SCENARIOS_DIR: &'static str = "scenarios";
    pub const TESTS_DIR: &'static str = "tests";
    pub const BUSINESS_FLOWS_FILE: &'static str = "business-flows.json";
    pub const RULES_FILE: &'static str = "rules.json";
    pub const PROBLEMS_FILE: &'static str = "problems.json";
    pub const CONSTRAINTS_FILE: &'static str = "constraints.json";

    /// Returns all required top-level files.
    pub fn required_files() -> (r: Vec<&'static str>)
        ensures
            str_views(r@) == required_file_names(),
    {
        let r = vec!["contract.json", "config.json"];
        assert(str_views(r@) =~= required_file_names());
        r
    }

    /// Returns all required directories.
    pub fn required_dirs() -> (r: Vec<&'static str>)
        ensures
            str_views(r@) == required_dir_names(),
    {
        let r = vec!["personas", "world-model", "scenarios"];
        assert(str_views(r@) =~= required_dir_names());
        r
    }

    /// Returns all required world model files.
    pub fn required_world_model_files() -> (r: Vec<&'static str>)
        ensures
            str_views(r@) == required_world_model_file_names(),
    {
        let r = vec!["business-flows.json", "rules.json", "problems.json", "constraints.json"];
        assert(str_views(r@) =~= required_world_model_file_names());
        r
    }
}

/// The files a context repository holds at its root.
pub open spec fn required_file_names() -> Seq<Seq<char>> {
    seq!["contract.json"@, "config.json"@]
}

/// The directories a context repository holds at its root.
pub open spec fn required_dir_names() -> Seq<Seq<char>> {
    seq!["personas"@, "world-model"@, "scenarios"@]
}

/// The files of the world-model directory.
pub open spec fn required_world_model_file_names() -> Seq<Seq<char>> {
    seq!["business-flows.json"@, "rules.json"@, "problems.json"@, "constraints.json"@]
}

/// Result of validating a Context Repository against the contract.
#[derive(Debug, Clone)]
pub struct ValidationResult {
    pub valid: bool,
    pub errors: Vec<ValidationError>,
    pub warnings: Vec<String>,
}

/// A validation result seen as its verdict, its errors and its warnings.
pub struct ValidationOutcome {
    pub valid: bool,
    pub errors: Seq<ValidationError>,
    pub warnings: Seq<Seq<char>>,
}

impl View for ValidationResult {
    type V = ValidationOutcome;

    open spec fn view(&self) -> ValidationOutcome {
        ValidationOutcome { valid: self.valid, errors: self.errors@, warnings: string_views(self.warnings@) }
    }
}

/// The outcome of a clean validation.
pub open spec fn clean_outcome() -> ValidationOutcome {
    ValidationOutcome { valid: true, errors: seq![], warnings: seq![] }
}

/// Two outcomes merged: valid only when both are, errors and warnings of the
/// first followed by those of the second.
pub open spec fn merged(a: ValidationOutcome, b: ValidationOutcome) -> ValidationOutcome {
    ValidationOutcome { valid: a.valid && b.valid, errors: a.errors + b.errors, warnings: a.warnings + b.warnings }
}

impl ValidationResult {
    pub fn success() -> (r: Self)
        ensures
            r@ == clean_outcome(),
            r.valid,
            r.errors@.len() == 0,
            r.warnings@.len() == 0,
    {
        let r = Self { valid: true, errors: Vec::new(), warnings: Vec::new() };
        assert(r@.warnings =~= Seq::<Seq<char>>::empty());
        r
    }

    pub fn with_error(error: ValidationError) -> (r: Self)
        ensures
            !r.valid,
            r.errors@ == seq![error],
            r.warnings@.len() == 0,
    {
        let mut errors: Vec<ValidationError> = Vec::new();
        errors.push(error);
        Self { valid: false, errors, warnings: Vec::new() }
    }

    pub fn merge(&mut self, other: ValidationResult)
        ensures
            final(self)@ == merged(old(self)@, other@),
            final(self).errors@ == old(self).errors@ + other.errors@,
            final(self).warnings@ == old(self).warnings@ + other.warnings@,
    {
        if !other.valid {
            self.valid = false;
        }
        let mut other = other;
        let ghost ow = other.warnings@;
        self.errors.append(&mut other.errors);
        self.warnings.append(&mut other.warnings);
        assert(string_views(self.warnings@) =~= string_views(old(self).warnings@) + string_views(ow));
    }
}

/// Merging with a clean outcome on the left changes nothing.
pub proof fn merge_clean_left(a: ValidationOutcome)
    ensures
        merged(clean_outcome(), a) == a,
{
    assert(merged(clean_outcome(), a).errors =~= a.errors);
    assert(merged(clean_outcome(), a).warnings =~= a.warnings);
}

/// Merging with a clean outcome on the right changes nothing.
pub proof fn merge_clean_right(a: ValidationOutcome)
    ensures
        merged(a, clean_outcome()) == a,
{
    assert(merged(a, clean_outcome()).errors =~= a.errors);
    assert(merged(a, clean_outcome()).warnings =~= a.warnings);
}

/// Merging is associative.
pub proof fn merge_associative(a: ValidationOutcome, b: ValidationOutcome, c: ValidationOutcome)
    ensures
        merged(merged(a, b), c) == merged(a, merged(b, c)),
{
    assert(merged(merged(a, b), c).errors =~= merged(a, merged(b, c)).errors);
    assert(merged(merged(a, b), c).warnings =~= merged(a, merged(b, c)).warnings);
}

/// A specific validation error with location and details.
#[derive(Debug, Clone)]
pub struct ValidationError {
    pub file: String,
    pub field: Option<String>,
    pub error_type: ValidationErrorType,
    pub message: String,
    pub suggestion: Option<String>,
}

/// Types of validation errors.
#[derive(Debug, Clone, Copy, PartialEq, Eq)]
pub enum ValidationErrorType {
    MissingFile,
    MissingDirectory,
    InvalidJson,
    MissingField,
    InvalidValue,
    SchemaViolation,
    VersionMismatch,
}

} // verus!
