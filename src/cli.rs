//! The command line, as plain values.

use vstd::prelude::*;

verus! {

/// How much the logger reports.
#[derive(Clone, Copy, Debug, PartialEq, Eq, Structural)]
pub enum Verbosity {
    Off,
    Error,
    Warn,
    Info,
    Debug,
    Trace,
}

pub struct Args {
    /// Sets the logger's verbosity level
    pub verbosity: Verbosity,
    pub command: Subcommands,
}

pub enum Subcommands {
    Download(DownloadArgs),
}

pub struct DownloadArgs {
    /// The public URL to download from
    pub url: String,
    /// The path to save the downloaded files
    pub path: Option<String>,
    /// The email to use if logging in
    pub email: Option<String>,
    /// The password to use if logging in
    pub password: Option<String>,
    /// The two-factor authentication code to use if logging in
    pub mfa: Option<String>,
}

impl DownloadArgs {
    /// Whether to log in before resolving the link: only when both an email
    /// and a password are given.
    pub fn wants_login(&self) -> (r: bool)
        ensures
            r == (self.email is Some && self.password is Some),
    {
        self.email.is_some() && self.password.is_some()
    }

    /// Where the file `name` is written: inside the destination directory
    /// when one is given, else in the current directory.
    pub fn destination(&self, name: &String) -> (r: String)
        ensures
            self.path is None ==> r@ == name@,
            self.path matches Some(d) ==> r@ == d@ + seq!['/'] + name@,
    {
        match &self.path {
            None => name.clone(),
            Some(d) => {
                proof {
                    reveal_strlit("/");
                }
                let r = d.clone().concat("/").concat(name.as_str());
                assert(r@ =~= d@ + seq!['/'] + name@);
                r
            },
        }
    }
}

} // verus!
