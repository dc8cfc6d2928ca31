use crate::level::{Level, LevelFilter};
use crate::record::LogLine;
use vstd::prelude::*;

verus! {

/// Whether the stdout sink takes a record: it does when the record passes
/// the stdout level and is no error. Errors go to stderr.
pub open spec fn stdout_takes(stdout_level: LevelFilter, level: Level) -> bool {
    stdout_level.admits(level) && level != Level::Error
}

/// Whether the stderr sink takes a record: it takes the errors.
pub open spec fn stderr_takes(level: Level) -> bool {
    level == Level::Error
}

/// Whether the file sink takes a record: it does when the record passes the
/// file level.
pub open spec fn file_takes(fileout_level: LevelFilter, level: Level) -> bool {
    fileout_level.admits(level)
}

/// Whether a file format asks for JSON lines. Only `json` does.
pub open spec fn wants_json(file_format: Option<String>) -> bool {
    file_format matches Some(format) && format@ == "json"@
}

/// The sink on the process's standard output.
#[derive(Clone, Copy, Debug)]
pub struct StdoutWriter {
    pub level: LevelFilter,
    pub is_colored: bool,
}

/// The sink on the process's standard error.
#[derive(Clone, Copy, Debug)]
pub struct StderrWriter {
    pub is_colored: bool,
}

/// Where the log file lies and what it holds.
#[derive(Debug)]
pub struct FileWriterConfig {
    pub directory: Option<String>,
    pub file_name: Option<String>,
    pub file_format: Option<String>,
}

/// The sink on the log file.
#[derive(Clone, Copy, Debug)]
pub struct FileWriter {
    pub json_format: bool,
    pub level: LevelFilter,
}

impl StdoutWriter {
    /// The stdout sink with its level and color switch.
    pub fn new(level: LevelFilter, is_colored: bool) -> (r: Self)
        ensures
            r.level == level,
            r.is_colored == is_colored,
    {
        StdoutWriter { level, is_colored }
    }

    /// Whether the sink takes the line.
    pub fn enabled(&self, line: &LogLine) -> (r: bool)
        ensures
            r == stdout_takes(self.level, line.level),
    {
        self.level.allows(line.level) && line.level != Level::Error
    }
}

impl StderrWriter {
    /// The stderr sink with its color switch.
    pub fn new(is_colored: bool) -> (r: Self)
        ensures
            r.is_colored == is_colored,
    {
        StderrWriter { is_colored }
    }

    /// Whether the sink takes the line.
    pub fn enabled(&self, line: &LogLine) -> (r: bool)
        ensures
            r == stderr_takes(line.level),
    {
        line.level == Level::Error
    }
}

impl FileWriterConfig {
    /// A file configuration with the given directory, file name and format.
    pub fn new(directory: Option<String>, file_name: Option<String>, file_format: Option<String>) -> (r:
        Self)
        ensures
            r.directory == directory,
            r.file_name == file_name,
            r.file_format == file_format,
    {
        FileWriterConfig { directory, file_name, file_format }
    }
}

impl Default for FileWriterConfig {
    fn default() -> (r: Self)
        ensures
            r.directory is None,
            r.file_name is None,
            r.file_format is None,
    {
        FileWriterConfig { directory: None, file_name: None, file_format: None }
    }
}

impl FileWriter {
    /// The file sink with its level. It takes JSON lines where the
    /// configured format is `json`, else plain lines.
    pub fn new(file_config: &FileWriterConfig, fileout_level: LevelFilter) -> (r: Self)
        ensures
            r.level == fileout_level,
            r.json_format == wants_json(file_config.file_format),
    {
        let json_format = match &file_config.file_format {
            Some(format) => format.as_str().eq("json"),
            None => false,
        };
        FileWriter { json_format, level: fileout_level }
    }

    /// Whether the sink takes the line.
    pub fn enabled(&self, line: &LogLine) -> (r: bool)
        ensures
            r == file_takes(self.level, line.level),
    {
        self.level.allows(line.level)
    }
}

} // verus!
