//! The export of a run as numbered frames and one video.
//!
//! An export makes sure that the frames directory is there, writes the
//! frames into it one after the other, numbered from zero, and then has
//! the encoder turn them into a video. The encoder finds the frames by the
//! pattern it is given, so the names written here and that pattern belong
//! together.

use vstd::prelude::*;
use vstd::string::*;
use crate::decimal::{format_u32, lemma_numeral_injective, numeral_of};

verus! {

/// Width and height of an exported frame, in pixels.
pub const IMAGE_SIDE: u32 = 1500;

/// The grey of a frame's background, in each of its three colour channels.
pub const BACKGROUND_LEVEL: u8 = 51;

/// Frames per second at which the encoder reads the frames.
pub const INPUT_FRAME_RATE: u32 = 10;

/// Frames per second of the video.
pub const OUTPUT_FRAME_RATE: u32 = 60;

/// The samples of a frame before anything is drawn into it, row by row
/// and four to the pixel: red, green and blue at the background level, and
/// full opacity.
pub open spec fn fresh_frame_of() -> Seq<u8> {
    Seq::new(
        (IMAGE_SIDE * IMAGE_SIDE * 4) as nat,
        |i: int|
            if i % 4 == 3 {
                255u8
            } else {
                BACKGROUND_LEVEL
            },
    )
}

/// Makes the samples of a frame before anything is drawn into it.
pub fn fresh_frame() -> (samples: Vec<u8>)
    ensures
        samples@ == fresh_frame_of(),
{
    let side = IMAGE_SIDE as usize;
    let pixels: usize = side * side;
    let mut samples: Vec<u8> = Vec::with_capacity(4 * pixels);
    let mut done: usize = 0;
    while done < pixels
        invariant
            done <= pixels,
            pixels == IMAGE_SIDE * IMAGE_SIDE,
            samples@.len() == 4 * done,
            forall|i: int|
                0 <= i < samples@.len() ==> #[trigger] samples@[i] == fresh_frame_of()[i],
        decreases pixels - done,
    {
        samples.push(BACKGROUND_LEVEL);
        samples.push(BACKGROUND_LEVEL);
        samples.push(BACKGROUND_LEVEL);
        samples.push(255);
        done = done + 1;
    }
    samples
}

/// The pixel in the middle of a frame, along either axis: where the pivot
/// of every pendulum is.
pub fn image_midpoint() -> (m: u32)
    ensures
        m == IMAGE_SIDE / 2,
{
    IMAGE_SIDE / 2
}

/// The name of a frame's file inside the frames directory, with `number`
/// in the place of the frame's number.
pub open spec fn file_name_with(number: Seq<char>) -> Seq<char> {
    number + ".png"@
}

/// The path of a frame's file, with `number` in the place of the frame's
/// number.
pub open spec fn path_with(number: Seq<char>) -> Seq<char> {
    "frames"@ + "/"@ + file_name_with(number)
}

/// The name of the file of frame `index` inside the frames directory: the
/// numeral of `index`, and the extension.
pub open spec fn frame_file_name_of(index: nat) -> Seq<char> {
    file_name_with(numeral_of(index))
}

/// The path of the file of frame `index`.
pub open spec fn frame_path_of(index: nat) -> Seq<char> {
    path_with(numeral_of(index))
}

/// The pattern by which the encoder finds the frames: the path of a frame
/// with `%d` in the place of the number.
pub open spec fn frame_pattern_of() -> Seq<char> {
    path_with("%d"@)
}

/// The arguments of the encoder.
pub open spec fn encoder_arguments_of() -> Seq<Seq<char>> {
    seq![
        "-framerate"@,
        numeral_of(INPUT_FRAME_RATE as nat),
        "-i"@,
        frame_pattern_of(),
        "-c:v"@,
        "libx264"@,
        "-r"@,
        numeral_of(OUTPUT_FRAME_RATE as nat),
        "-pix_fmt"@,
        "yuv420p"@,
        "output.mp4"@,
    ]
}

/// The directory that the frames are written to.
pub fn frames_directory() -> (name: &'static str)
    ensures
        name@ == "frames"@,
{
    "frames"
}

/// The name of the file of frame `index` inside the frames directory.
pub fn frame_file_name(index: u32) -> (name: String)
    ensures
        name@ == frame_file_name_of(index as nat),
{
    let mut name = format_u32(index);
    name.append(".png");
    name
}

/// The path of the file of frame `index`.
pub fn frame_path(index: u32) -> (path: String)
    ensures
        path@ == frame_path_of(index as nat),
{
    let mut path = String::from_str(frames_directory());
    path.append("/");
    let name = frame_file_name(index);
    path.append(name.as_str());
    path
}

/// The program that encodes the frames.
pub fn encoder_program() -> (name: &'static str)
    ensures
        name@ == "ffmpeg"@,
{
    "ffmpeg"
}

/// The pattern by which the encoder finds the frames.
pub fn frame_pattern() -> (pattern: String)
    ensures
        pattern@ == frame_pattern_of(),
{
    let mut pattern = String::from_str(frames_directory());
    pattern.append("/");
    pattern.append("%d");
    pattern.append(".png");
    pattern
}

/// The arguments to start the encoder with, in order: read the numbered
/// frames at the input rate, and encode them as `output.mp4` at the output
/// rate.
pub fn encoder_arguments() -> (arguments: Vec<String>)
    ensures
        arguments.deep_view() == encoder_arguments_of(),
{
    let mut arguments: Vec<String> = Vec::new();
    arguments.push(String::from_str("-framerate"));
    arguments.push(format_u32(INPUT_FRAME_RATE));
    arguments.push(String::from_str("-i"));
    arguments.push(frame_pattern());
    arguments.push(String::from_str("-c:v"));
    arguments.push(String::from_str("libx264"));
    arguments.push(String::from_str("-r"));
    arguments.push(format_u32(OUTPUT_FRAME_RATE));
    arguments.push(String::from_str("-pix_fmt"));
    arguments.push(String::from_str("yuv420p"));
    arguments.push(String::from_str("output.mp4"));
    arguments
}

/// Two frames with different numbers are written to different files.
pub proof fn lemma_frame_paths_differ(a: nat, b: nat)
    requires
        frame_path_of(a) == frame_path_of(b),
    ensures
        a == b,
{
    let head = ("frames"@ + "/"@).len() as int;
    let tail = ".png"@.len() as int;
    let pa = frame_path_of(a);
    let pb = frame_path_of(b);
    assert(numeral_of(a) =~= pa.subrange(head, pa.len() - tail));
    assert(numeral_of(b) =~= pb.subrange(head, pb.len() - tail));
    lemma_numeral_injective(a, b);
}

/// What an export does next.
#[derive(Clone, Copy, Debug, PartialEq, Eq, Structural)]
pub enum ExportAction {
    /// Make sure that the frames directory is there; one that is there
    /// already is used as it is.
    PrepareDirectory,
    /// Draw frame `index` on a fresh background and write it to
    /// `frame_path(index)`.
    WriteFrame { index: u32 },
    /// Run the encoder with `encoder_arguments()`.
    Encode,
    /// Nothing is left to do.
    Finished,
}

/// What an export of `frames` frames does at step `step`, the first step
/// being step zero: prepare the directory, write the frames in the order
/// of their numbers, encode, and nothing from then on.
pub open spec fn action_at(frames: nat, step: nat) -> ExportAction {
    if step == 0 {
        ExportAction::PrepareDirectory
    } else if step <= frames {
        ExportAction::WriteFrame { index: (step - 1) as u32 }
    } else if step == frames + 1 {
        ExportAction::Encode
    } else {
        ExportAction::Finished
    }
}

/// The number of frames that an export writes when asked for `requested`
/// frames: none when the request is negative.
pub open spec fn frame_count_of(requested: int) -> nat {
    if requested < 0 {
        0
    } else {
        requested as nat
    }
}

/// An export under way: how many frames it is to write, and how far it is.
pub struct Export {
    frames: u32,
    step: u64,
}

impl Export {
    #[verifier::type_invariant]
    spec fn within_run(&self) -> bool {
        self.step <= self.frames as u64 + 2
    }

    /// The number of frames that this export writes in all.
    pub closed spec fn frames(&self) -> nat {
        self.frames as nat
    }

    /// The number of steps taken so far. It stays at `frames() + 2` once
    /// the export has finished.
    pub closed spec fn step(&self) -> nat {
        self.step as nat
    }

    /// An export of `requested` frames that has not taken a step.
    pub fn new(requested: i32) -> (export: Export)
        ensures
            export.frames() == frame_count_of(requested as int),
            export.step() == 0,
    {
        let frames: u32 = if requested < 0 {
            0
        } else {
            requested as u32
        };
        Export { frames, step: 0 }
    }

    /// The number of frames that this export writes in all.
    pub fn frame_count(&self) -> (n: u32)
        ensures
            n == self.frames(),
    {
        self.frames
    }

    /// Takes the next step and tells what it is.
    pub fn next(&mut self) -> (action: ExportAction)
        ensures
            action == action_at(old(self).frames(), old(self).step()),
            final(self).frames() == old(self).frames(),
            final(self).step() == if old(self).step() < old(self).frames() + 2 {
                old(self).step() + 1
            } else {
                old(self).step()
            },
    {
        proof {
            use_type_invariant(&*self);
        }
        let step = self.step;
        let frames = self.frames as u64;
        if step < frames + 2 {
            self.step = step + 1;
        }
        if step == 0 {
            ExportAction::PrepareDirectory
        } else if step <= frames {
            ExportAction::WriteFrame { index: (step - 1) as u32 }
        } else if step == frames + 1 {
            ExportAction::Encode
        } else {
            ExportAction::Finished
        }
    }
}

/// Every frame below the frame count is written at exactly one step, the
/// frames are written in the order of their numbers, and all of them after
/// the directory was prepared and before the encoder runs.
pub proof fn lemma_each_frame_written_once(frames: nat, index: nat)
    requires
        index < frames <= u32::MAX,
    ensures
        action_at(frames, index + 1) == (ExportAction::WriteFrame { index: index as u32 }),
        forall|step: nat| #[trigger]
            action_at(frames, step) == (ExportAction::WriteFrame { index: index as u32 }) ==> step
                == index + 1,
        action_at(frames, 0) == ExportAction::PrepareDirectory,
        action_at(frames, frames + 1) == ExportAction::Encode,
{
}

/// Nothing but frames with numbers below the frame count is written.
pub proof fn lemma_only_counted_frames_written(frames: nat, step: nat)
    requires
        frames <= u32::MAX,
    ensures
        action_at(frames, step) matches ExportAction::WriteFrame { index } ==> index < frames
            && step == index + 1,
        step > frames + 1 ==> action_at(frames, step) == ExportAction::Finished,
{
}

} // verus!
