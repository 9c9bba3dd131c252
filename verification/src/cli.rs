use vstd::prelude::*;

verus! {

/// One parsed invocation: the chosen subcommand plus the global dry-run
/// flag.
pub struct Cli {
    pub subcommand: SubCommand,
    /// Do not execute any commands; print them instead.
    pub dry_run: bool,
}

/// The chosen recipe (or the tool-version query), with its flags and input
/// files. Each recipe is stateless: it maps an input file to one planned
/// conversion command plus a declared output extension.
pub enum SubCommand {
    /// Report the version and availability of each external tool.
    Versions,
    /// jpg - converts towards photos with many colors and without
    /// transparency.
    Photo {
        /// Strip the file of metadata.
        strip: bool,
        /// Resize the image to fit inside an area.
        resize: bool,
        /// The area the image is resized to fit inside when `resize` is set.
        resize_size: String,
        /// Files to be converted.
        input_files: Vec<String>,
    },
    /// png - compresses pngs.
    Screenshot {
        /// Strip the file of metadata.
        strip: bool,
        /// Take considerably more effort to get a small file size.
        pedantic: bool,
        /// Files to be converted.
        input_files: Vec<String>,
    },
    /// mp3 - extract or convert to mp3.
    Sound {
        /// Files to be converted.
        input_files: Vec<String>,
    },
    /// ogg - extract or convert to an opus encoded audio file.
    Opus {
        /// Files to be converted.
        input_files: Vec<String>,
    },
    /// mp4 - convert to mp4 video.
    Video {
        /// Files to be converted.
        input_files: Vec<String>,
    },
    /// mp4 - extract or convert to mp4 videos without sound.
    Gifish {
        /// Files to be converted.
        input_files: Vec<String>,
    },
}

} // verus!
