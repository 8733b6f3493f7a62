//! The mutable accumulator behind the UI: one flag is flipped per toggle
//! event, and a snapshot of the current argument set is taken on demand.

use vstd::prelude::*;

use crate::args::ArgsModel;
use crate::args::InkscapeArgs;

verus! {

/// Mutable builder of an [`InkscapeArgs`] value. Each setter changes exactly
/// one flag; `build` hands out an immutable snapshot.
#[derive(Debug)]
pub struct InkscapeArgsBuilder {
    pub file_path_input: Option<String>,
    pub cmd: InkscapeArgs,
}

impl InkscapeArgsBuilder {
    /// A builder whose argument set requests nothing.
    pub fn new() -> (r: InkscapeArgsBuilder)
        ensures
            r.cmd@ == (ArgsModel { input: None, png: false, pdf: false, eps: false }),
            r.file_path_input is None,
    {
        InkscapeArgsBuilder { file_path_input: None, cmd: InkscapeArgs::new() }
    }

    /// Turns the PNG flag on or off; nothing else changes.
    pub fn png(&mut self, enabled: bool)
        ensures
            final(self).cmd@ == (ArgsModel { png: enabled, ..old(self).cmd@ }),
            final(self).file_path_input == old(self).file_path_input,
    {
        self.cmd.export_png = enabled;
    }

    /// Turns the EPS flag on or off; nothing else changes.
    pub fn eps(&mut self, enabled: bool)
        ensures
            final(self).cmd@ == (ArgsModel { eps: enabled, ..old(self).cmd@ }),
            final(self).file_path_input == old(self).file_path_input,
    {
        self.cmd.export_eps = enabled;
    }

    /// Turns the PDF flag on or off; nothing else changes.
    pub fn pdf(&mut self, enabled: bool)
        ensures
            final(self).cmd@ == (ArgsModel { pdf: enabled, ..old(self).cmd@ }),
            final(self).file_path_input == old(self).file_path_input,
    {
        self.cmd.export_pdf = enabled;
    }

    /// An immutable snapshot of the current argument set.
    pub fn build(&self) -> (r: InkscapeArgs)
        ensures
            r@ == self.cmd@,
    {
        self.cmd.snapshot()
    }
}

impl Default for InkscapeArgsBuilder {
    /// Same as [`InkscapeArgsBuilder::new`]: nothing is requested yet.
    fn default() -> (r: InkscapeArgsBuilder)
        ensures
            r.cmd@ == (ArgsModel { input: None, png: false, pdf: false, eps: false }),
            r.file_path_input is None,
    {
        InkscapeArgsBuilder { file_path_input: None, cmd: InkscapeArgs::new() }
    }
}

} // verus!
