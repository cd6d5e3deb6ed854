//! Detection and removal of black bars (letterboxing and pillarboxing) from videos.
//!
//! ffmpeg reports the crop values that it detects and encodes the cropped videos. This library reads
//! its reports, decides what becomes of each video, keeps the index from which an interrupted run
//! resumes, and words what is shown on the way.
pub mod capture;
pub mod counter;
pub mod crop;
pub mod detect;
pub mod encoder;
pub mod index;
pub mod paths;
pub mod process;
pub mod progress;
pub mod run;
pub mod scan;
pub mod text;
