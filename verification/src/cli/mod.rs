//! What the command line asks for.

use vstd::prelude::*;

verus! {

/// The arguments of one run of the program.
#[derive(Debug, Clone)]
pub struct Cli {
    /// The address of the video.
    pub url: String,
    /// The directory for the file.
    pub output: String,
    /// The template of the file name.
    pub output_template: Option<String>,
    /// The stream asked for.
    pub format: String,
    /// Whether to say more.
    pub verbose: bool,
    /// The number of transfers at one time.
    pub concurrent: usize,
}

/// The template of the file name where the command line gives none.
pub open spec fn default_template() -> Seq<char> {
    "%(title)s.%(ext)s"@
}

impl Cli {
    /// The template of the file name: the one given, or the title and the
    /// extension.
    pub fn template(&self) -> (r: String)
        ensures
            r@ == (match self.output_template {
                Some(template) => template@,
                None => default_template(),
            }),
    {
        match &self.output_template {
            Some(template) => template.clone(),
            None => crate::text::owned("%(title)s.%(ext)s"),
        }
    }
}

} // verus!
