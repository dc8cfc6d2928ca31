use crate::components::ComponentLevels;
use crate::filter::{
    level_filter_of_text, parse_level_filter_str, severity_from_str, severity_named,
    try_parse_level_filter_str,
};
use crate::level::LevelFilter;
use crate::text::{split, split_on};
use vstd::prelude::*;
use vstd::std_specs::cmp::PartialEqSpecImpl;

verus! {

/// What a logger configuration says.
pub struct LoggerConfigView {
    pub stdout_level: LevelFilter,
    pub fileout_level: LevelFilter,
    pub component_level: Map<Seq<char>, LevelFilter>,
    pub is_colored: bool,
    pub print_config: bool,
}

/// The levels and switches a logger runs with.
#[derive(Debug)]
pub struct LoggerConfig {
    /// Maximum level to write to stdout.
    pub stdout_level: LevelFilter,
    /// Maximum level to write to file.
    pub fileout_level: LevelFilter,
    /// Maximum level to write for a given component.
    pub component_level: ComponentLevels,
    /// Whether lines for the terminal carry ANSI color codes.
    pub is_colored: bool,
    /// Whether the configuration is printed when the logger starts.
    pub print_config: bool,
}

impl View for LoggerConfig {
    type V = LoggerConfigView;

    open spec fn view(&self) -> LoggerConfigView {
        LoggerConfigView {
            stdout_level: self.stdout_level,
            fileout_level: self.fileout_level,
            component_level: self.component_level@,
            is_colored: self.is_colored,
            print_config: self.print_config,
        }
    }
}

/// The configuration without any setting: `Info` to stdout, nothing to file,
/// no component of its own, no colors, nothing printed.
pub open spec fn default_config() -> LoggerConfigView {
    LoggerConfigView {
        stdout_level: LevelFilter::Info,
        fileout_level: LevelFilter::Off,
        component_level: Map::empty(),
        is_colored: false,
        print_config: false,
    }
}

/// The configuration after one token of a specification. A token is one of
/// the flags `is_colored` and `print_config`, or `key=severity`, where the
/// key is `stdout`, `fileout` or a component's name and the severity is a
/// filter's name in any case, `WARNING` standing for `WARN`. Text after a
/// second `=` is not read. A token of any other shape changes nothing.
pub open spec fn apply_token(config: LoggerConfigView, token: Seq<char>) -> LoggerConfigView {
    if token == "is_colored"@ {
        LoggerConfigView { is_colored: true, ..config }
    } else if token == "print_config"@ {
        LoggerConfigView { print_config: true, ..config }
    } else {
        let parts = split_on(token, '=');
        if parts.len() >= 2 {
            match severity_named(parts[1]) {
                Some(level) => {
                    if parts[0] == "stdout"@ {
                        LoggerConfigView { stdout_level: level, ..config }
                    } else if parts[0] == "fileout"@ {
                        LoggerConfigView { fileout_level: level, ..config }
                    } else {
                        LoggerConfigView {
                            component_level: config.component_level.insert(parts[0], level),
                            ..config
                        }
                    }
                },
                None => config,
            }
        } else {
            config
        }
    }
}

/// The configuration after a run of tokens, applied left to right.
pub open spec fn apply_tokens(config: LoggerConfigView, tokens: Seq<Seq<char>>) -> LoggerConfigView
    decreases tokens.len(),
{
    if tokens.len() == 0 {
        config
    } else {
        apply_token(apply_tokens(config, tokens.drop_last()), tokens.last())
    }
}

/// The configuration that a specification text stands for: its tokens, which
/// semicolons separate, applied to the default.
pub open spec fn config_of_spec(spec: Seq<char>) -> LoggerConfigView {
    apply_tokens(default_config(), split_on(spec, ';'))
}

/// The component levels that a list of names and level texts stands for,
/// read left to right. A text that names no level sets nothing.
pub open spec fn component_levels_of(pairs: Seq<(String, String)>) -> Map<Seq<char>, LevelFilter>
    decreases pairs.len(),
{
    if pairs.len() == 0 {
        Map::empty()
    } else {
        let before = component_levels_of(pairs.drop_last());
        match level_filter_of_text(pairs.last().1@) {
            Some(level) => before.insert(pairs.last().0@, level),
            None => before,
        }
    }
}

/// Every level text in the list names a level.
pub open spec fn all_levels_parse(pairs: Seq<(String, String)>) -> bool {
    forall|i: int| 0 <= i < pairs.len() ==> level_filter_of_text((#[trigger] pairs[i]).1@) is Some
}

impl Default for LoggerConfig {
    fn default() -> (r: Self)
        ensures
            r@ == default_config(),
    {
        LoggerConfig {
            stdout_level: LevelFilter::Info,
            fileout_level: LevelFilter::Off,
            component_level: ComponentLevels::new(),
            is_colored: false,
            print_config: false,
        }
    }
}

impl Clone for LoggerConfig {
    fn clone(&self) -> (r: Self)
        ensures
            r@ == self@,
    {
        LoggerConfig {
            stdout_level: self.stdout_level,
            fileout_level: self.fileout_level,
            component_level: self.component_level.clone(),
            is_colored: self.is_colored,
            print_config: self.print_config,
        }
    }
}

impl PartialEq for LoggerConfig {
    fn eq(&self, other: &Self) -> (r: bool) {
        self.stdout_level == other.stdout_level && self.fileout_level == other.fileout_level
            && self.component_level == other.component_level && self.is_colored
            == other.is_colored && self.print_config == other.print_config
    }
}

impl PartialEqSpecImpl for LoggerConfig {
    open spec fn obeys_eq_spec() -> bool {
        true
    }

    open spec fn eq_spec(&self, other: &LoggerConfig) -> bool {
        self@ == other@
    }
}

impl LoggerConfig {
    /// A configuration with the given levels and switches.
    pub fn new(
        stdout_level: LevelFilter,
        fileout_level: LevelFilter,
        component_level: ComponentLevels,
        is_colored: bool,
        print_config: bool,
    ) -> (r: Self)
        ensures
            r@ == (LoggerConfigView {
                stdout_level,
                fileout_level,
                component_level: component_level@,
                is_colored,
                print_config,
            }),
    {
        LoggerConfig { stdout_level, fileout_level, component_level, is_colored, print_config }
    }

    /// Applies one token of a specification to the configuration.
    pub fn apply_token(self, token: &str) -> (r: Self)
        ensures
            r@ == apply_token(self@, token@),
    {
        let mut config = self;
        if token.eq("is_colored") {
            config.is_colored = true;
        } else if token.eq("print_config") {
            config.print_config = true;
        } else {
            let parts = split(token, '=');
            if parts.len() >= 2 {
                assert(parts.deep_view()[0] == parts[0]@);
                assert(parts.deep_view()[1] == parts[1]@);
                match severity_from_str(parts[1].as_str()) {
                    Some(level) => {
                        if parts[0].as_str().eq("stdout") {
                            config.stdout_level = level;
                        } else if parts[0].as_str().eq("fileout") {
                            config.fileout_level = level;
                        } else {
                            config.component_level.insert(parts[0].clone(), level);
                        }
                    },
                    None => {},
                }
            }
        }
        config
    }

    /// Reads a configuration from a specification text such as
    /// `stdout=Info;is_colored;fileout=Debug;RiskEngine=Error`.
    pub fn from_spec(spec: &str) -> (r: Self)
        ensures
            r@ == config_of_spec(spec@),
    {
        let tokens = split(spec, ';');
        let mut config = LoggerConfig::default();
        let mut i: usize = 0;
        assert(tokens.deep_view().take(0) =~= Seq::<Seq<char>>::empty());
        while i < tokens.len()
            invariant
                i <= tokens.len(),
                config@ == apply_tokens(default_config(), tokens.deep_view().take(i as int)),
            decreases tokens.len() - i,
        {
            let ghost done = tokens.deep_view().take(i as int);
            let ghost next = tokens.deep_view().take(i + 1);
            assert(next.drop_last() =~= done);
            assert(next.last() == tokens[i as int]@);
            config = config.apply_token(tokens[i].as_str());
            i += 1;
        }
        assert(tokens.deep_view().take(i as int) =~= tokens.deep_view());
        config
    }
}

/// Builds the component levels from names and level texts. Every text must
/// name a level, in any case.
pub fn parse_component_levels(names_and_levels: Option<Vec<(String, String)>>) -> (r: ComponentLevels)
    requires
        names_and_levels matches Some(pairs) ==> all_levels_parse(pairs@),
    ensures
        r@ == match names_and_levels {
            Some(pairs) => component_levels_of(pairs@),
            None => Map::empty(),
        },
{
    match names_and_levels {
        Some(pairs) => {
            let mut levels = ComponentLevels::new();
            let mut i: usize = 0;
            assert(pairs@.take(0) =~= Seq::<(String, String)>::empty());
            while i < pairs.len()
                invariant
                    i <= pairs.len(),
                    all_levels_parse(pairs@),
                    levels@ == component_levels_of(pairs@.take(i as int)),
                decreases pairs.len() - i,
            {
                let ghost next = pairs@.take(i + 1);
                assert(next.drop_last() =~= pairs@.take(i as int));
                assert(next.last() == pairs@[i as int]);
                let level = parse_level_filter_str(pairs[i].1.as_str());
                levels.insert(pairs[i].0.clone(), level);
                i += 1;
            }
            assert(pairs@.take(i as int) =~= pairs@);
            levels
        },
        None => ComponentLevels::new(),
    }
}

/// Builds the component levels from names and level texts, or returns `None`
/// when one of the texts names no level.
pub fn try_parse_component_levels(names_and_levels: Option<Vec<(String, String)>>) -> (r: Option<
    ComponentLevels,
>)
    ensures
        match names_and_levels {
            Some(pairs) => if all_levels_parse(pairs@) {
                r matches Some(levels) && levels@ == component_levels_of(pairs@)
            } else {
                r is None
            },
            None => r matches Some(levels) && levels@ == Map::<Seq<char>, LevelFilter>::empty(),
        },
{
    let mut valid = true;
    match &names_and_levels {
        Some(pairs) => {
            let mut i: usize = 0;
            while i < pairs.len()
                invariant
                    i <= pairs.len(),
                    valid == forall|j: int|
                        0 <= j < i ==> level_filter_of_text((#[trigger] pairs@[j]).1@) is Some,
                decreases pairs.len() - i,
            {
                if try_parse_level_filter_str(pairs[i].1.as_str()).is_none() {
                    valid = false;
                }
                i += 1;
            }
        },
        None => {},
    }
    if valid {
        Some(parse_component_levels(names_and_levels))
    } else {
        None
    }
}

} // verus!
