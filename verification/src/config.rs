use vstd::prelude::*;

pub mod serde_path;

verus! {

/// The settings file of the program.
///
/// Each path is `None` when the file asks for it to be found automatically.
#[derive(Debug, Clone)]
pub struct Configuration {
    /// The browser that receives every link that is not a beatmap.
    pub browser_path: Option<String>,
    /// The osu! executable that opens downloaded beatmaps.
    pub custom_osu_path: Option<String>,
}

impl Default for Configuration {
    /// The configuration written when none can be read: both paths automatic.
    fn default() -> (c: Self)
        ensures
            c.browser_path is None,
            c.custom_osu_path is None,
    {
        Configuration { browser_path: None, custom_osu_path: None }
    }
}

/// What came of trying to read the settings file.
#[derive(Debug, Clone)]
pub enum ConfigRead {
    /// It was read and understood.
    Parsed(Configuration),
    /// There is no settings file.
    Missing,
    /// It exists but could not be read or understood.
    Unparsable,
}

/// What to run with after trying to read the settings file.
#[derive(Debug, Clone)]
pub enum ConfigStep {
    /// Run with these settings.
    Use(Configuration),
    /// Write the default settings file, and run with what was written.
    WriteDefault,
    /// Run with the default settings, leaving the file as it is.
    UseDefault,
}

/// The settings file is created with the default settings only where there
/// is none; a file that cannot be understood is left alone, and the program
/// runs with the defaults.
pub fn config_step(read: ConfigRead) -> (step: ConfigStep)
    ensures
        read matches ConfigRead::Parsed(c) ==> (step matches ConfigStep::Use(d) && d == c),
        read is Missing ==> step is WriteDefault,
        read is Unparsable ==> step is UseDefault,
{
    match read {
        ConfigRead::Parsed(c) => ConfigStep::Use(c),
        ConfigRead::Missing => ConfigStep::WriteDefault,
        ConfigRead::Unparsable => ConfigStep::UseDefault,
    }
}

} // verus!
