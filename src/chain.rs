use vstd::prelude::*;

verus! {

/// Native executor of the production runtime.
pub struct BasiliskExecutorDispatch;

/// Native executor of the testing runtime.
pub struct TestingBasiliskExecutorDispatch;

/// What `str::to_lowercase` gives for `s`.
pub uninterp spec fn lower_of(s: Seq<char>) -> Seq<char>;

/// Relies on `str::to_lowercase`: its result depends on the characters of `s` alone.
#[verifier::external_body]
fn lowercase(s: &str) -> (r: String)
    ensures
        r@ == lower_of(s@),
{
    s.to_lowercase()
}

/// Whether `p` is a prefix of `s`.
pub open spec fn has_prefix(s: Seq<char>, p: Seq<char>) -> bool {
    p.len() <= s.len() && s.subrange(0, p.len() as int) == p
}

/// Relies on `str::starts_with`: whether `p` is a prefix of `s`.
#[verifier::external_body]
fn starts_with(s: &str, p: &str) -> (r: bool)
    ensures
        r == has_prefix(s@, p@),
{
    s.starts_with(p)
}

/// Whether a chain name, once lower-cased, names the production runtime.
pub open spec fn names_basilisk(lower: Seq<char>) -> bool {
    has_prefix(lower, "basilisk"@) || has_prefix(lower, "bsx"@)
}

/// Whether a chain name, once lower-cased, names the testing runtime.
pub open spec fn names_testing(lower: Seq<char>) -> bool {
    has_prefix(lower, "test"@)
}

/// Whether the lower-cased chain name `lower` names the production runtime.
pub fn is_basilisk_name(lower: &str) -> (r: bool)
    ensures
        r == names_basilisk(lower@),
{
    starts_with(lower, "basilisk") || starts_with(lower, "bsx")
}

/// Whether the lower-cased chain name `lower` names the testing runtime.
pub fn is_testing_name(lower: &str) -> (r: bool)
    ensures
        r == names_testing(lower@),
{
    starts_with(lower, "test")
}

/// Tells which runtime a chain belongs to, by its name.
pub trait IdentifyVariant {
    /// The chain's name.
    spec fn chain_name(&self) -> Seq<char>;

    /// Whether this is a chain of the production runtime.
    fn is_basilisk_runtime(&self) -> (r: bool)
        ensures
            r == names_basilisk(lower_of(self.chain_name())),
    ;

    /// Whether this is a chain of the testing runtime.
    fn is_testing_runtime(&self) -> (r: bool)
        ensures
            r == names_testing(lower_of(self.chain_name())),
    ;
}

impl IdentifyVariant for String {
    open spec fn chain_name(&self) -> Seq<char> {
        self@
    }

    fn is_basilisk_runtime(&self) -> (r: bool) {
        let lower = lowercase(self.as_str());
        is_basilisk_name(lower.as_str())
    }

    fn is_testing_runtime(&self) -> (r: bool) {
        let lower = lowercase(self.as_str());
        is_testing_name(lower.as_str())
    }
}

} // verus!
