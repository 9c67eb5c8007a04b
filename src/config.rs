use regex::Error as RegexError;
use regex::Regex as CompiledRegex;
use vstd::prelude::*;

verus! {

/// What `regex` finds: whether the pattern, compiled with default options,
/// matches somewhere in the text.
pub uninterp spec fn regex_finds(pattern: Seq<char>, text: Seq<char>) -> bool;

/// Whether `regex` accepts the pattern with default options.
pub uninterp spec fn regex_compiles(pattern: Seq<char>) -> bool;

/// Relies on regex::Regex::new: compiles a pattern or reports why it cannot;
/// which of the two depends on the pattern alone.
#[verifier::external_body]
fn compile_regex(pattern: &str) -> (r: Result<CompiledRegex, RegexError>)
    ensures
        r is Ok <==> regex_compiles(pattern@),
{
    CompiledRegex::new(pattern)
}

#[verifier::external_type_specification]
#[verifier::external_body]
pub struct ExRegex(CompiledRegex);

#[verifier::external_type_specification]
#[verifier::external_body]
pub struct ExRegexError(RegexError);

/// A compiled regular expression together with the pattern it was compiled
/// from. Its fields are private: `from_str` is the only way to build one, so
/// `inner` is always the compilation of `source`.
pub struct Regex {
    inner: CompiledRegex,
    source: String,
}

impl View for Regex {
    type V = Seq<char>;

    closed spec fn view(&self) -> Seq<char> {
        self.source@
    }
}

impl Regex {
    /// Compiles `s`; the result's view is `s` itself.
    pub fn from_str(s: &str) -> (r: Result<Regex, RegexError>)
        ensures
            r is Ok <==> regex_compiles(s@),
            r is Ok ==> r->Ok_0@ == s@,
    {
        match compile_regex(s) {
            Ok(inner) => Ok(Regex { inner, source: s.to_string() }),
            Err(e) => Err(e),
        }
    }

    /// The pattern this expression was compiled from.
    pub fn as_str(&self) -> (r: &str)
        ensures
            r@ == self@,
    {
        self.source.as_str()
    }

    /// Relies on regex::Regex::is_match: a search for the pattern anywhere in
    /// `text`. `inner` was compiled from `source` (see the type).
    #[verifier::external_body]
    pub(crate) fn is_match(&self, text: &str) -> (r: bool)
        ensures
            r == regex_finds(self@, text@),
    {
        self.inner.is_match(text)
    }
}

/// One window-selection rule: optional patterns on the application id and
/// on the title, and an optional index into the rule's pid-ordered matches.
pub struct MatchRule {
    pub app_id: Option<Regex>,
    pub title: Option<Regex>,
    pub index: Option<usize>,
}

/// A configured application: how to launch it, and which windows are its.
pub struct Application {
    pub name: String,
    pub spawn: Option<Vec<String>>,
    pub spawn_sh: Option<String>,
    pub matches: Vec<MatchRule>,
    pub excludes: Vec<MatchRule>,
}

/// The decoded configuration file.
pub struct Config {
    pub applications: Vec<Application>,
}

/// Errors of configuration lookups.
pub enum ConfigError {
    /// No application of that name is configured.
    ApplicationNotFound { name: String },
}

/// Whether application `i` of `apps` is the first one named `name`.
pub open spec fn is_first_named(apps: Seq<Application>, name: Seq<char>, i: int) -> bool {
    &&& 0 <= i < apps.len()
    &&& apps[i].name@ == name
    &&& forall|j: int| 0 <= j < i ==> apps[j].name@ != name
}

impl Config {
    /// The first application whose name is `name`, or `ApplicationNotFound`
    /// when none has it.
    pub fn find_application(&self, name: &str) -> (r: Result<&Application, ConfigError>)
        ensures
            r is Ok <==> exists|i: int| is_first_named(self.applications@, name@, i),
            r is Ok ==> exists|i: int|
                is_first_named(self.applications@, name@, i) && *r->Ok_0
                    == self.applications@[i],
            r is Err ==> (r->Err_0 matches ConfigError::ApplicationNotFound { name: n } && n@
                == name@),
    {
        let wanted = name.to_string();
        let mut i: usize = 0;
        while i < self.applications.len()
            invariant
                i <= self.applications.len(),
                wanted@ == name@,
                forall|j: int| 0 <= j < i ==> self.applications@[j].name@ != name@,
            decreases self.applications.len() - i,
        {
            if self.applications[i].name == wanted {
                assert(is_first_named(self.applications@, name@, i as int));
                return Ok(&self.applications[i]);
            }
            i = i + 1;
        }
        Err(ConfigError::ApplicationNotFound { name: wanted })
    }
}

} // verus!
