//! The state of the server between the editor's notifications.
//!
//! The project root, the settings and the linter are written once, when
//! the editor initializes the server. From then on every change of a
//! document runs one analysis pass, which borrows the server, and with it
//! the linter, for itself from start to end: two passes never interleave.

use crate::analysis::{analyze, named_by, pass_of, pass_shape, rules_checked};
use crate::config::{
    default_config, default_linter, generate_config, generate_linter, loaded_config,
    loaded_rules, ConfigError, ConfigErrorView, ServerConfig, ServerConfigView, SettingsFile,
    SettingsFileView,
};
use crate::define::resolve_defines;
use crate::diagnostic::{diagnostics_of, report, Diagnostic, DiagnosticView, RawFailureView};
use crate::paths::resolve_paths;
use crate::rules::all_rules;
use vstd::prelude::*;
use vstd::string::StringSliceAdditionalSpecFns;
use vstd::utf8::encode_utf8;

verus! {

/// Where the server stands in its life.
#[derive(Clone, Copy, Debug, PartialEq, Eq)]
pub enum Phase {
    /// Nothing is loaded yet.
    Uninitialized,
    /// Root, settings and linter are in place.
    Initialized,
    /// The editor asked the server to shut down.
    ShuttingDown,
}

/// The server's state.
pub struct Backend {
    phase: Phase,
    root: String,
    config: ServerConfig,
    linter: Option<svlint::linter::Linter>,
}

/// Mathematical value of a [`Backend`].
pub struct BackendView {
    /// Where the server stands.
    pub phase: Phase,
    /// The project root; empty where the editor named none that is a path.
    pub root: Seq<char>,
    /// The settings in force.
    pub config: ServerConfigView,
    /// The linter, where the server holds one.
    pub linter: Option<svlint::linter::Linter>,
}

impl BackendView {
    /// Whether the server holds a linter.
    pub open spec fn has_linter(self) -> bool {
        self.linter is Some
    }

    /// The names of the rules that the server checks; `None` where it
    /// holds no linter.
    pub open spec fn rules(self) -> Option<Set<Seq<char>>> {
        rules_checked(self.linter)
    }

    /// Well-formedness: before initialization nothing is loaded, and from
    /// then on the server holds a linter exactly where the settings ask
    /// for the rules to be checked.
    pub open spec fn wf(self) -> bool {
        if self.phase is Uninitialized {
            !self.has_linter() && self.config == default_config() && self.root.len() == 0
        } else {
            self.has_linter() == self.config.linter
        }
    }
}

impl View for Backend {
    type V = BackendView;

    closed spec fn view(&self) -> BackendView {
        BackendView {
            phase: self.phase,
            root: self.root@,
            config: self.config@,
            linter: self.linter,
        }
    }
}

/// The settings the server starts with: those of the settings file, or the
/// default where there is none to be had.
pub open spec fn startup_config(settings: Option<SettingsFileView>) -> ServerConfigView {
    match loaded_config(settings) {
        Ok(config) => config,
        Err(_) => default_config(),
    }
}

/// The rules the server starts with: none where the settings switch the
/// linter off; else those of the rule settings file, or all the rules
/// there are where there is no such file to be had.
pub open spec fn startup_rules(
    settings: Option<SettingsFileView>,
    rules: Option<SettingsFileView>,
) -> Option<Set<Seq<char>>> {
    if startup_config(settings).linter {
        match loaded_rules(rules) {
            Ok(switched_on) => Some(switched_on),
            Err(_) => Some(all_rules()),
        }
    } else {
        None
    }
}

/// What went wrong while the settings were loaded, in the order in which
/// the user is told: first of the project settings, then of the rule
/// settings, which are loaded only where the rules are checked.
pub open spec fn startup_errors(
    settings: Option<SettingsFileView>,
    rules: Option<SettingsFileView>,
) -> Seq<ConfigErrorView> {
    let of_settings = match loaded_config(settings) {
        Ok(_) => Seq::empty(),
        Err(error) => seq![error],
    };
    let of_rules = if startup_config(settings).linter {
        match loaded_rules(rules) {
            Ok(_) => Seq::empty(),
            Err(error) => seq![error],
        }
    } else {
        Seq::empty()
    };
    of_settings + of_rules
}

/// Whether `state` is the state of a server that was initialized with this
/// root and these settings files.
pub open spec fn started(
    state: BackendView,
    root: Option<Seq<char>>,
    settings: Option<SettingsFileView>,
    rules: Option<SettingsFileView>,
) -> bool {
    &&& state.phase is Initialized
    &&& state.root == match root {
        Some(path) => path,
        None => Seq::empty(),
    }
    &&& state.config == startup_config(settings)
    &&& state.rules() == startup_rules(settings, rules)
}

/// The errors of `errors`, as mathematical values.
pub open spec fn error_views(errors: Seq<ConfigError>) -> Seq<ConfigErrorView> {
    errors.map_values(|e: ConfigError| e@)
}

/// Whether `found` and `after` are what one analysis pass over `text` may
/// leave of a server in state `before`.
///
/// Before initialization nothing is found and nothing changes. From then
/// on phase, root and settings stay, the linter holds the same rules, and
/// the diagnostics are those of what the pass leaves for some outcome of
/// the parser: its syntax error, or what the linter finds in the tree.
pub open spec fn pass_result(
    before: BackendView,
    text: Seq<u8>,
    found: Seq<DiagnosticView>,
    after: BackendView,
) -> bool {
    if before.phase is Uninitialized {
        found.len() == 0 && after == before
    } else {
        &&& after.phase == before.phase
        &&& after.root == before.root
        &&& after.config == before.config
        &&& after.rules() == before.rules()
        &&& exists|failures: Seq<RawFailureView>|
            {
                &&& pass_of(before.linter, failures, after.linter)
                &&& pass_shape(failures, before.has_linter())
                &&& forall|i: int|
                    0 <= i < failures.len() ==> named_by(#[trigger] failures[i], before.rules())
                &&& found == #[trigger] diagnostics_of(text, failures)
            }
    }
}

/// Whether the rule settings are wanted at startup: whether the settings
/// the server starts with ask for the rules to be checked.
pub fn rules_wanted(settings: &Option<SettingsFile>) -> (r: bool)
    ensures
        r == startup_config(settings.deep_view()).linter,
{
    let copy = match settings {
        Some(file) => Some(
            SettingsFile {
                path: file.path.clone(),
                content: match &file.content {
                    Some(text) => Some(text.clone()),
                    None => None,
                },
            },
        ),
        None => None,
    };
    match generate_config(copy) {
        Ok(config) => config.option.linter,
        Err(_) => true,
    }
}

impl Backend {
    /// Well-formedness of the state.
    pub open spec fn wf(&self) -> bool {
        self@.wf()
    }

    /// A server that is not initialized yet.
    pub fn new() -> (b: Backend)
        ensures
            b.wf(),
            b@.phase is Uninitialized,
    {
        Backend {
            phase: Phase::Uninitialized,
            root: String::new(),
            config: ServerConfig::default(),
            linter: None,
        }
    }

    /// Where the server stands.
    pub fn phase(&self) -> (p: Phase)
        ensures
            p == self@.phase,
    {
        self.phase
    }

    /// The project root.
    pub fn root(&self) -> (r: &str)
        ensures
            r@ == self@.root,
    {
        self.root.as_str()
    }

    /// The settings in force.
    pub fn config(&self) -> (c: &ServerConfig)
        ensures
            c@ == self@.config,
    {
        &self.config
    }

    /// Whether the server holds a linter.
    pub fn has_linter(&self) -> (r: bool)
        ensures
            r == self@.has_linter(),
    {
        self.linter.is_some()
    }

    /// Initializes the server, once: takes the project root, loads the
    /// project settings and, where they ask for the rules to be checked,
    /// the rule settings. Settings that cannot be had are replaced by the
    /// default, rule settings that cannot be had by every rule switched
    /// on; what went wrong is returned for the user to be told.
    ///
    /// A server that was initialized before stays as it is.
    pub fn initialize(
        &mut self,
        root: Option<String>,
        settings: Option<SettingsFile>,
        rules: Option<SettingsFile>,
    ) -> (errors: Vec<ConfigError>)
        requires
            old(self).wf(),
        ensures
            final(self).wf(),
            !(old(self)@.phase is Uninitialized) ==> final(self)@ == old(self)@ && errors@.len()
                == 0,
            old(self)@.phase is Uninitialized ==> started(
                final(self)@,
                root.deep_view(),
                settings.deep_view(),
                rules.deep_view(),
            ) && error_views(errors@) == startup_errors(settings.deep_view(), rules.deep_view()),
    {
        let mut errors: Vec<ConfigError> = Vec::new();
        match self.phase {
            Phase::Uninitialized => {},
            _ => {
                return errors;
            },
        }
        let config = match generate_config(settings) {
            Ok(config) => config,
            Err(error) => {
                errors.push(error);
                ServerConfig::default()
            },
        };
        assert(error_views(errors@) =~= match loaded_config(settings.deep_view()) {
            Ok(_) => Seq::<ConfigErrorView>::empty(),
            Err(error) => seq![error],
        });
        let linter = if config.option.linter {
            match generate_linter(rules) {
                Ok(linter) => Some(linter),
                Err(error) => {
                    errors.push(error);
                    Some(default_linter())
                },
            }
        } else {
            None
        };
        assert(error_views(errors@) =~= startup_errors(settings.deep_view(), rules.deep_view()));
        let root = match root {
            Some(path) => path,
            None => String::new(),
        };
        *self = Backend { phase: Phase::Initialized, root, config, linter };
        errors
    }

    /// Takes note that the editor asked an initialized server to shut
    /// down. Nothing is released: root, settings and linter stay as they
    /// are.
    pub fn shutdown(&mut self)
        requires
            old(self).wf(),
        ensures
            final(self).wf(),
            final(self)@ == (BackendView {
                phase: if old(self)@.phase is Initialized {
                    Phase::ShuttingDown
                } else {
                    old(self)@.phase
                },
                ..old(self)@
            }),
    {
        match self.phase {
            Phase::Initialized => {
                self.phase = Phase::ShuttingDown;
            },
            _ => {},
        }
    }

    /// Runs one analysis pass over the text `s` of a document and returns
    /// its diagnostics, in the order in which they were found.
    ///
    /// Before initialization there is nothing to analyze with: the result
    /// is empty. Else the include paths of the settings are resolved
    /// against the project root, the definitions of the settings are
    /// handed to the preprocessor, and the result holds what one pass
    /// found in the primary buffer, and nothing that was found in an
    /// included file. The linter holds the same rules afterwards.
    pub fn lint(&mut self, s: &str) -> (r: Vec<Diagnostic>)
        requires
            old(self).wf(),
        ensures
            final(self).wf(),
            pass_result(old(self)@, s.spec_bytes(), r.deep_view(), final(self)@),
    {
        match self.phase {
            Phase::Uninitialized => {
                return Vec::new();
            },
            _ => {},
        }
        let include_paths = resolve_paths(self.root.as_str(), &self.config.verilog.include_paths);
        let defines = resolve_defines(&self.config.verilog.defines);
        let failures = analyze(s, &defines, &include_paths, &mut self.linter);
        proof {
            assert forall|i: int| 0 <= i < failures.deep_view().len() implies named_by(
                #[trigger] failures.deep_view()[i],
                old(self)@.rules(),
            ) by {
                assert(failures.deep_view()[i] == failures@[i]@);
            }
        }
        report(s, &failures)
    }

    /// Handles a document that was opened: one pass over its text.
    pub fn did_open(&mut self, text: &str) -> (r: Vec<Diagnostic>)
        requires
            old(self).wf(),
        ensures
            final(self).wf(),
            pass_result(old(self)@, text.spec_bytes(), r.deep_view(), final(self)@),
    {
        self.lint(text)
    }

    /// Handles a document that was changed: one pass over the text of the
    /// first change, which holds the whole document.
    pub fn did_change(&mut self, content_changes: &Vec<String>) -> (r: Vec<Diagnostic>)
        requires
            old(self).wf(),
            content_changes@.len() > 0,
        ensures
            final(self).wf(),
            pass_result(
                old(self)@,
                encode_utf8(content_changes@[0]@),
                r.deep_view(),
                final(self)@,
            ),
    {
        self.lint(content_changes[0].as_str())
    }
}

} // verus!
