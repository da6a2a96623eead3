//! The options the renderer is started with. Parsing the command line
//! itself is left to the surrounding program; this type carries the parsed
//! values and their defaults.

use vstd::prelude::*;

verus! {

#[derive(Clone, Debug, PartialEq, Eq)]
pub struct CommandLineOptions {
    /// Path of the file holding the scene to render.
    pub scene: String,
    /// Width of the render in pixels.
    pub width: usize,
    /// Height of the render in pixels.
    pub height: usize,
    /// Number of worker threads to spawn.
    pub num_workers: usize,
    /// Number of chunks to split the image into.
    pub num_chunks: usize,
    /// Name of the output image.
    pub image_name: String,
}

impl Default for CommandLineOptions {
    /// The defaults: a full-HD-wide frame rendered by one worker in a
    /// hundred chunks.
    fn default() -> (c: CommandLineOptions)
        ensures
            c.scene@ == "scene.json"@,
            c.width == 1920,
            c.height == 1024,
            c.num_workers == 1,
            c.num_chunks == 100,
            c.image_name@ == "image.ppm"@,
    {
        CommandLineOptions {
            scene: "scene.json".to_string(),
            width: 1920,
            height: 1024,
            num_workers: 1,
            num_chunks: 100,
            image_name: "image.ppm".to_string(),
        }
    }
}

} // verus!
