//! The linter and its settings.

use vstd::prelude::*;

verus! {

#[verifier::external_type_specification]
#[verifier::external_body]
pub struct ExLinter(svlint::linter::Linter);

#[verifier::external_type_specification]
#[verifier::external_body]
pub struct ExRuleSettings(svlint::config::Config);

/// The names of the rules that a linter holds.
pub uninterp spec fn rules_of(linter: svlint::linter::Linter) -> Set<Seq<char>>;

/// The names of the rules that rule settings switch on: the rules that a
/// linter made from them holds.
pub uninterp spec fn rules_on(settings: svlint::config::Config) -> Set<Seq<char>>;

/// Whether `rules` holds every rule there is: every rule that any rule
/// settings switch on.
pub open spec fn holds_every_rule(rules: Set<Seq<char>>) -> bool {
    forall|settings: svlint::config::Config| #[trigger] rules_on(settings).subset_of(rules)
}

/// The names of all the rules there are: of every rule that some rule
/// settings switch on.
pub open spec fn all_rules() -> Set<Seq<char>> {
    Set::new(
        |name: Seq<char>|
            exists|settings: svlint::config::Config| #[trigger] rules_on(settings).contains(name),
    )
}

/// Settings that switch every rule on switch on exactly the rules there
/// are.
pub proof fn lemma_every_rule(settings: svlint::config::Config)
    requires
        holds_every_rule(rules_on(settings)),
    ensures
        rules_on(settings) == all_rules(),
{
    assert forall|name: Seq<char>| all_rules().contains(name) implies rules_on(settings).contains(
        name,
    ) by {
        let other = choose|other: svlint::config::Config| #[trigger] rules_on(other).contains(name);
        assert(rules_on(other).subset_of(rules_on(settings)));
    }
    assert(rules_on(settings) =~= all_rules());
}

/// The names of the rules that the rule settings file `text` switches on;
/// `None` where the linter refuses the text.
pub uninterp spec fn rule_settings_of(text: Seq<char>) -> Option<Set<Seq<char>>>;

/// Calls `toml::from_str` for the linter's own settings type.
///
/// Trusted: whether the text is accepted, and the rules that the settings
/// read from it switch on, depend on the text alone.
#[verifier::external_body]
pub(crate) fn parse_rule_settings(text: &str) -> (r: Option<svlint::config::Config>)
    ensures
        match r {
            Some(settings) => rule_settings_of(text@) == Some(rules_on(settings)),
            None => rule_settings_of(text@) is None,
        },
{
    toml::from_str(text).ok()
}

/// Calls `svlint::config::Config::new`: the settings of an empty file.
#[verifier::external_body]
pub(crate) fn empty_rule_settings() -> svlint::config::Config {
    svlint::config::Config::new()
}

/// Calls `svlint::config::Config::enable_all`.
///
/// Trusted: the result switches every rule on, so that no settings switch
/// on a rule that the result does not.
#[verifier::external_body]
pub(crate) fn enable_all_rules(settings: svlint::config::Config) -> (r: svlint::config::Config)
    ensures
        holds_every_rule(rules_on(r)),
{
    settings.enable_all()
}

/// Calls `svlint::linter::Linter::new`.
///
/// Trusted: the linter holds the rules that the settings switch on.
#[verifier::external_body]
pub(crate) fn new_linter(settings: svlint::config::Config) -> (r: svlint::linter::Linter)
    ensures
        rules_of(r) == rules_on(settings),
{
    svlint::linter::Linter::new(settings)
}

} // verus!
