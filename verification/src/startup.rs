//! Fail-closed process startup boundary for the shared gateway.
//!
//! Network authority is never activated from an implicit configuration path: exactly one
//! `--config <path>` argument is required, and the referenced document must be read and satisfy
//! the versioned edge contract before any listener starts.

use vstd::prelude::*;

use crate::edge_contract::{config_error, GatewayConfig, GatewayConfigError, GatewayConfigErrorView};
use crate::text::{chars_eq, chars_of};

verus! {

/// Parsed command-line authority required before gateway startup.
#[derive(Debug, Clone, PartialEq, Eq)]
pub struct GatewayCommand {
    config_path: String,
}

/// Failures that prevent the process from obtaining network authority.
#[derive(Debug, Clone, PartialEq, Eq)]
pub enum GatewayCommandError {
    /// The caller omitted the mandatory explicit configuration path.
    MissingConfigOption,
    /// The caller provided `--config` without a path value.
    MissingConfigValue,
    /// More than one configuration source is ambiguous and therefore rejected.
    DuplicateConfigOption,
    /// The startup surface accepts no undocumented arguments.
    UnexpectedArgument(String),
    /// The explicit configuration file could not be read.
    ReadConfig {
        /// Explicit path requested by the operator.
        path: String,
        /// Operating-system failure classification, by its `Debug` name.
        kind: String,
    },
    /// The explicit configuration file violated the versioned edge contract.
    InvalidConfig {
        /// Explicit path requested by the operator.
        path: String,
        /// Contract validation failure.
        source: GatewayConfigError,
    },
}

/// [`GatewayCommandError`] with its text as character sequences.
pub enum GatewayCommandErrorView {
    MissingConfigOption,
    MissingConfigValue,
    DuplicateConfigOption,
    UnexpectedArgument(Seq<char>),
    ReadConfig(Seq<char>, Seq<char>),
    InvalidConfig(Seq<char>, GatewayConfigErrorView),
}

impl View for GatewayCommandError {
    type V = GatewayCommandErrorView;

    open spec fn view(&self) -> GatewayCommandErrorView {
        match self {
            GatewayCommandError::MissingConfigOption => GatewayCommandErrorView::MissingConfigOption,
            GatewayCommandError::MissingConfigValue => GatewayCommandErrorView::MissingConfigValue,
            GatewayCommandError::DuplicateConfigOption => GatewayCommandErrorView::DuplicateConfigOption,
            GatewayCommandError::UnexpectedArgument(a) => GatewayCommandErrorView::UnexpectedArgument(a@),
            GatewayCommandError::ReadConfig { path, kind } => GatewayCommandErrorView::ReadConfig(path@, kind@),
            GatewayCommandError::InvalidConfig { path, source } => GatewayCommandErrorView::InvalidConfig(path@, source@),
        }
    }
}

/// What the arguments after the program name amount to, given the path already found.
pub open spec fn parse_arguments(rest: Seq<Seq<char>>, found: Option<Seq<char>>) -> Result<Seq<char>, GatewayCommandErrorView>
    decreases rest.len(),
{
    if rest.len() == 0 {
        match found {
            Some(p) => Ok(p),
            None => Err(GatewayCommandErrorView::MissingConfigOption),
        }
    } else if rest[0] != "--config"@ {
        Err(GatewayCommandErrorView::UnexpectedArgument(rest[0]))
    } else if found is Some {
        Err(GatewayCommandErrorView::DuplicateConfigOption)
    } else if rest.len() < 2 {
        Err(GatewayCommandErrorView::MissingConfigValue)
    } else {
        parse_arguments(rest.subrange(2, rest.len() as int), Some(rest[1]))
    }
}

/// What a process argument list (program name first) amounts to.
pub open spec fn parse_command(args: Seq<Seq<char>>) -> Result<Seq<char>, GatewayCommandErrorView> {
    if args.len() == 0 {
        parse_arguments(args, None)
    } else {
        parse_arguments(args.drop_first(), None)
    }
}

impl GatewayCommand {
    pub closed spec fn spec_config_path(&self) -> Seq<char> {
        self.config_path@
    }

    /// Parses the process arguments (program name first) and requires exactly one explicit
    /// `--config <path>`.
    pub fn parse(args: Vec<String>) -> (r: Result<Self, GatewayCommandError>)
        ensures
            match parse_command(args@.map_values(|a: String| a@)) {
                Ok(p) => r matches Ok(c) && c.spec_config_path() == p,
                Err(ev) => r matches Err(e) && e@ == ev,
            },
    {
        let ghost all = args@.map_values(|a: String| a@);
        let flag = chars_of("--config");
        let mut config_path: Option<String> = None;
        let mut i: usize = if args.len() == 0 { 0 } else { 1 };
        proof {
            if args@.len() > 0 {
                assert(all.drop_first() =~= all.subrange(1, all.len() as int));
            } else {
                assert(all =~= all.subrange(0, 0));
            }
        }
        while i < args.len()
            invariant
                all == args@.map_values(|a: String| a@),
                flag@ == "--config"@,
                i <= args@.len(),
                parse_command(all) == parse_arguments(all.subrange(i as int, all.len() as int), match config_path {
                    Some(p) => Some(p@),
                    None => None,
                }),
            decreases args.len() - i,
        {
            let ghost rest = all.subrange(i as int, all.len() as int);
            assert(rest[0] == args@[i as int]@);
            let argument = chars_of(args[i].as_str());
            if !chars_eq(&argument, &flag) {
                return Err(GatewayCommandError::UnexpectedArgument(args[i].clone()));
            }
            if config_path.is_some() {
                return Err(GatewayCommandError::DuplicateConfigOption);
            }
            if i + 1 >= args.len() {
                return Err(GatewayCommandError::MissingConfigValue);
            }
            assert(rest[1] == args@[i + 1]@);
            assert(rest.subrange(2, rest.len() as int) =~= all.subrange(i + 2, all.len() as int));
            config_path = Some(args[i + 1].clone());
            i = i + 2;
        }
        assert(all.subrange(i as int, all.len() as int) =~= Seq::<Seq<char>>::empty());
        match config_path {
            Some(config_path) => Ok(GatewayCommand { config_path }),
            None => Err(GatewayCommandError::MissingConfigOption),
        }
    }

    /// Returns the operator-selected configuration path without normalizing or replacing it.
    pub fn config_path(&self) -> (r: &String)
        ensures
            r@ == self.spec_config_path(),
    {
        &self.config_path
    }

    /// Admits the configuration document read from the explicit path. `source` is the outcome of
    /// reading it (the failure's kind name when unreadable) and, when read, of decoding it (the
    /// decoder's message when it does not decode).
    pub fn load_config(&self, source: Result<Result<GatewayConfig, String>, String>) -> (r: Result<GatewayConfig, GatewayCommandError>)
        ensures
            match source {
                Err(kind) => r matches Err(e) && e@ == GatewayCommandErrorView::ReadConfig(self.spec_config_path(), kind@),
                Ok(Err(m)) => r matches Err(e) && e@ == GatewayCommandErrorView::InvalidConfig(self.spec_config_path(), GatewayConfigErrorView::Parse(m@)),
                Ok(Ok(c)) => match config_error(c) {
                    Some(ev) => r matches Err(e) && e@ == GatewayCommandErrorView::InvalidConfig(self.spec_config_path(), ev),
                    None => r == Ok::<GatewayConfig, GatewayCommandError>(c),
                },
            },
    {
        let decoded = match source {
            Err(kind) => return Err(GatewayCommandError::ReadConfig { path: self.config_path.clone(), kind }),
            Ok(d) => d,
        };
        match GatewayConfig::accept(decoded) {
            Ok(c) => Ok(c),
            Err(source) => Err(GatewayCommandError::InvalidConfig { path: self.config_path.clone(), source }),
        }
    }
}

impl GatewayCommandError {
    /// Returns the explicit configuration path for file- or contract-related startup failures.
    pub fn path(&self) -> (r: Option<&String>)
        ensures
            match self {
                GatewayCommandError::ReadConfig { path, .. } => r == Some(path),
                GatewayCommandError::InvalidConfig { path, .. } => r == Some(path),
                _ => r is None,
            },
    {
        match self {
            GatewayCommandError::ReadConfig { path, .. } => Some(path),
            GatewayCommandError::InvalidConfig { path, .. } => Some(path),
            _ => None,
        }
    }
}

} // verus!
