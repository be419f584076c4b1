//! Request paths on the terminal's server.

use vstd::prelude::*;

verus! {

/// Path fetched with GET at start-up; the reply is shown as text.
pub const REQUEST_PATH: &'static str = "/hello.txt";

/// Path that echoes posted text.
pub const POST_PATH: &'static str = "/msg";

/// Path that renders posted text (a command) into a 1-bit image.
pub const RENDER_PATH: &'static str = "/render";

/// Path that transcribes posted audio and answers with an image.
pub const STT_PATH: &'static str = "/stt";

/// Path that transcribes posted audio, asks the assistant and answers with
/// an image of the reply.
pub const ASK_PATH: &'static str = "/ask";

/// Path that serves the latest spoken answer as raw PCM.
pub const SPEAK_PATH: &'static str = "/speak";

/// Where a finished recording is posted: a question goes to [`ASK_PATH`],
/// dictation to [`STT_PATH`].
pub fn recording_path(ask: bool) -> (path: &'static str)
    ensures
        ask ==> path@ == ASK_PATH@,
        !ask ==> path@ == STT_PATH@,
{
    if ask {
        ASK_PATH
    } else {
        STT_PATH
    }
}

} // verus!
