use vstd::prelude::*;
use vstd::string::*;

verus! {

/// How the client identifies itself to the site.
#[derive(Debug, PartialEq, Eq)]
pub struct AocConfiguration {
    /// The session token; empty while none is known.
    pub token: String,
}

impl Clone for AocConfiguration {
    fn clone(&self) -> (c: Self)
        ensures
            c == *self,
    {
        AocConfiguration { token: self.token.clone() }
    }
}

impl Default for AocConfiguration {
    fn default() -> (c: Self)
        ensures
            c.token@ == Seq::<char>::empty(),
    {
        AocConfiguration { token: default_token() }
    }
}

pub fn default_token() -> (token: String)
    ensures
        token@ == Seq::<char>::empty(),
{
    String::new()
}

/// How text is laid out on the terminal.
#[derive(Debug, Clone, Copy, PartialEq, Eq)]
pub struct CliConfiguration {
    /// The number of columns to wrap text to.
    pub output_width: u32,
}

impl Default for CliConfiguration {
    fn default() -> (c: Self)
        ensures
            c.output_width == 120,
    {
        CliConfiguration { output_width: 120 }
    }
}

#[derive(Debug, PartialEq, Eq)]
pub struct Configuration {
    pub aoc: AocConfiguration,
    pub cli: CliConfiguration,
}

impl Clone for Configuration {
    fn clone(&self) -> (c: Self)
        ensures
            c == *self,
    {
        Configuration { aoc: self.aoc.clone(), cli: self.cli }
    }
}

impl Default for Configuration {
    fn default() -> (c: Self)
        ensures
            c.aoc.token@ == Seq::<char>::empty(),
            c.cli.output_width == 120,
    {
        Configuration { aoc: AocConfiguration::default(), cli: CliConfiguration::default() }
    }
}

/// Where the user's system keeps what belongs to an application. A
/// directory whose name is not valid Unicode is left out.
#[derive(Debug, Clone, PartialEq, Eq)]
pub struct ProjectDirectories {
    pub config_dir: Option<String>,
    pub cache_dir: Option<String>,
}

/// Calls `directories::ProjectDirs::from` and reads `config_dir` and
/// `cache_dir` of what it gives.
///
/// The result depends on the user's system, so nothing is claimed of it.
#[verifier::external_body]
pub(crate) fn project_directories(qualifier: &str, organization: &str, application: &str) -> Option<
    ProjectDirectories,
> {
    directories::ProjectDirs::from(qualifier, organization, application).map(|d| ProjectDirectories {
        config_dir: d.config_dir().to_str().map(String::from),
        cache_dir: d.cache_dir().to_str().map(String::from),
    })
}

impl Configuration {
    /// The directories of this application; nothing where the system has
    /// no home for the user.
    pub fn get_project_directories() -> Option<ProjectDirectories> {
        project_directories("", "", "elv")
    }

    /// The configuration with `token` in place of its own, where one is
    /// given.
    pub fn with_token(self, token: Option<&str>) -> (c: Self)
        ensures
            c.cli == self.cli,
            c.aoc.token@ == match token {
                Some(t) => t@,
                None => self.aoc.token@,
            },
    {
        match token {
            Some(t) => Configuration { aoc: AocConfiguration { token: t.to_owned() }, cli: self.cli },
            None => self,
        }
    }
}

} // verus!
