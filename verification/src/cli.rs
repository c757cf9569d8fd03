use vstd::prelude::*;

verus! {

/// What the program was asked to do.
#[derive(Debug, Clone, Copy, PartialEq, Eq, Structural)]
pub enum ExecutionMode {
    /// Open the given links, each with the program that suits it.
    Open,
    /// Register the program as a browser.
    Register,
    /// Remove the registration, if there is one.
    Unregister,
    /// Mark the program's icons as visible.
    ShowIcons,
    /// Mark the program's icons as hidden.
    HideIcons,
}

/// A mode that was asked for together with links, which it does not take.
#[derive(Debug, Clone, Copy, PartialEq, Eq, Structural)]
pub enum ModeError {
    UrlsNotAccepted(ExecutionMode),
}

/// The mode asked for, or, where none was, opening links when there are some
/// and registering when there are none.
pub open spec fn spec_chosen_mode(requested: Option<ExecutionMode>, has_urls: bool) -> ExecutionMode {
    match requested {
        Some(m) => m,
        None => if has_urls {
            ExecutionMode::Open
        } else {
            ExecutionMode::Register
        },
    }
}

/// The chosen mode, refused where links were given to a mode other than `Open`.
pub open spec fn spec_resolve_mode(requested: Option<ExecutionMode>, has_urls: bool) -> Result<ExecutionMode, ModeError> {
    let mode = spec_chosen_mode(requested, has_urls);
    if has_urls && mode != ExecutionMode::Open {
        Err(ModeError::UrlsNotAccepted(mode))
    } else {
        Ok(mode)
    }
}

/// The mode to run in: the chosen mode, refused where links were given to a
/// mode other than `Open`.
pub fn resolve_mode(requested: Option<ExecutionMode>, has_urls: bool) -> (res: Result<ExecutionMode, ModeError>)
    ensures
        res == spec_resolve_mode(requested, has_urls),
{
    let mode = match requested {
        Some(m) => m,
        None => if has_urls {
            ExecutionMode::Open
        } else {
            ExecutionMode::Register
        },
    };
    let is_open = match mode {
        ExecutionMode::Open => true,
        _ => false,
    };
    if has_urls && !is_open {
        Err(ModeError::UrlsNotAccepted(mode))
    } else {
        Ok(mode)
    }
}

/// With links given, the program either opens them or refuses to run; with
/// no links and no mode asked for, it registers itself; without links every mode runs as asked.
pub proof fn lemma_links_are_opened_or_refused(requested: Option<ExecutionMode>, has_urls: bool)
    ensures
        has_urls ==> (spec_resolve_mode(requested, has_urls) == Ok::<ExecutionMode, ModeError>(
            ExecutionMode::Open) || spec_resolve_mode(requested, has_urls) is Err),
        !has_urls && requested is None ==> spec_resolve_mode(requested, has_urls) == Ok::<
            ExecutionMode,
            ModeError,
        >(ExecutionMode::Register),
        !has_urls ==> (requested matches Some(m) ==> spec_resolve_mode(requested, has_urls) == Ok::<
            ExecutionMode,
            ModeError,
        >(m)),
{
}

/// How much the program writes to its log.
#[derive(Debug, Clone, Copy, PartialEq, Eq, Structural)]
pub enum LogLevel {
    Trace,
    Debug,
    Info,
}

/// The log level for the command-line flags: `--debug` logs everything,
/// `--verbose` logs debug messages, otherwise informational ones.
pub fn log_level(debug: bool, verbose: bool) -> (level: LogLevel)
    ensures
        level == (if debug {
            LogLevel::Trace
        } else if verbose {
            LogLevel::Debug
        } else {
            LogLevel::Info
        }),
{
    if debug {
        LogLevel::Trace
    } else if verbose {
        LogLevel::Debug
    } else {
        LogLevel::Info
    }
}

/// The flag that a registered launch passes on, so that the program keeps
/// logging as much as it did when it was registered: `--debug` wins over
/// `--verbose`; with neither, no flag.
pub fn registration_flag(debug: bool, verbose: bool) -> (flag: Option<&'static str>)
    ensures
        debug ==> (flag matches Some(f) && f@ == "--debug"@),
        !debug && verbose ==> (flag matches Some(f) && f@ == "--verbose"@),
        !debug && !verbose ==> flag is None,
{
    if debug {
        Some("--debug")
    } else if verbose {
        Some("--verbose")
    } else {
        None
    }
}

} // verus!
