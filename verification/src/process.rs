//! The transcode stage: how the transcoder is called and what its end
//! means for the job.

use vstd::prelude::*;
use crate::config::ProcessingConfig;
use crate::download::{CommandPlan, ProcessOutcome, StageVerdict};
use crate::error::{failure_of, AppError, ErrorKind};
use crate::job::Job;
use crate::security::joined_path;
use crate::text::{
    chars_of, decimal, decimal_string, push_chars, push_decimal, push_str, string_of, texts,
};

verus! {

/// The transcode stage for one working directory.
pub struct ProcessService {
    config: ProcessingConfig,
    working_dir: String,
}

/// The path of the transcoded file of a job: `{id}_processed.mp4` in the
/// working directory.
pub open spec fn processed_path(dir: Seq<char>, job_id: Seq<char>) -> Seq<char> {
    joined_path(dir, job_id + "_processed.mp4"@)
}

/// The arguments of the transcoder: the settings, and a fixed schedule
/// that makes the output play everywhere (high profile at level 4.0, 4:2:0
/// pixels, even dimensions, stereo, index at the front).
pub open spec fn transcode_args(
    config: ProcessingConfig,
    input: Seq<char>,
    output: Seq<char>,
) -> Seq<Seq<char>> {
    seq![
        "-i"@,
        input,
        "-c:v"@,
        config.video_codec@,
        "-preset"@,
        config.preset@,
        "-crf"@,
        decimal(config.crf as nat),
        "-profile:v"@,
        "high"@,
        "-level"@,
        "4.0"@,
        "-pix_fmt"@,
        "yuv420p"@,
        "-vf"@,
        "scale=trunc(iw/2)*2:trunc(ih/2)*2"@,
        "-c:a"@,
        config.audio_codec@,
        "-b:a"@,
        config.audio_bitrate@,
        "-ac"@,
        "2"@,
        "-threads"@,
        "0"@,
        "-movflags"@,
        "+faststart"@,
        "-max_muxing_queue_size"@,
        "1024"@,
        output,
    ]
}

/// The words of a transcode that ran out of time.
pub open spec fn processing_timeout_message(secs: nat) -> Seq<char> {
    "Processing timed out after "@ + decimal(secs) + " seconds"@
}

/// The failure that ends the transcode stage, or `None` where it
/// succeeds, given how the transcoder ended and whether its output exists.
pub open spec fn transcode_failure(
    outcome: ProcessOutcome,
    output: Seq<char>,
    output_exists: bool,
    timeout_secs: nat,
) -> Option<(ErrorKind, Seq<char>)> {
    match outcome {
        ProcessOutcome::TimedOut => Some(
            (ErrorKind::Timeout, processing_timeout_message(timeout_secs)),
        ),
        ProcessOutcome::SpawnFailed(words) => Some(
            (ErrorKind::Processing, "FFmpeg command failed: "@ + words@),
        ),
        ProcessOutcome::Exited { success, stderr } => if !success {
            Some((ErrorKind::Processing, stderr@))
        } else if !output_exists {
            Some((ErrorKind::Processing, "Output file not created: "@ + output))
        } else {
            None
        },
    }
}

/// Whether the partial output is to be unlinked when the stage ends: after
/// a timeout and after a failed run, if the output exists.
pub open spec fn transcode_leaves_partial(outcome: ProcessOutcome, output_exists: bool) -> bool {
    output_exists && match outcome {
        ProcessOutcome::TimedOut => true,
        ProcessOutcome::SpawnFailed(_) => false,
        ProcessOutcome::Exited { success, stderr } => !success,
    }
}

impl ProcessService {
    /// The settings of the stage.
    pub closed spec fn spec_config(&self) -> ProcessingConfig {
        self.config
    }

    /// The working directory.
    pub closed spec fn dir(&self) -> Seq<char> {
        self.working_dir@
    }

    /// The stage for `working_dir`.
    pub fn new(config: ProcessingConfig, working_dir: String) -> (s: ProcessService)
        ensures
            s.spec_config() == config,
            s.dir() == working_dir@,
    {
        ProcessService { config, working_dir }
    }

    /// The path of the transcoded file of the job `job_id`.
    pub fn output_path(&self, job_id: &str) -> (path: String)
        ensures
            path@ == processed_path(self.dir(), job_id@),
    {
        let dir = chars_of(self.working_dir.as_str());
        let mut path: Vec<char> = Vec::new();
        push_chars(&mut path, &dir);
        if dir.len() > 0 && dir[dir.len() - 1] != '/' {
            push_str(&mut path, "/");
        }
        push_str(&mut path, job_id);
        push_str(&mut path, "_processed.mp4");
        assert(path@ =~= processed_path(self.dir(), job_id@));
        string_of(&path)
    }

    /// The command that transcodes `input_path` for `job`.
    pub fn prepare(&self, job: &Job, input_path: &str) -> (plan: CommandPlan)
        ensures
            plan.program@ == self.spec_config().ffmpeg_command@,
            plan.timeout_secs == self.spec_config().processing_timeout,
            texts(plan.args@) == transcode_args(
                self.spec_config(),
                input_path@,
                processed_path(self.dir(), job@.id),
            ),
    {
        let output = self.output_path(job.id.as_str());
        let mut args: Vec<String> = Vec::new();
        args.push("-i".to_owned());
        args.push(input_path.to_owned());
        args.push("-c:v".to_owned());
        args.push(self.config.video_codec.clone());
        args.push("-preset".to_owned());
        args.push(self.config.preset.clone());
        args.push("-crf".to_owned());
        args.push(decimal_string(self.config.crf as u64));
        args.push("-profile:v".to_owned());
        args.push("high".to_owned());
        args.push("-level".to_owned());
        args.push("4.0".to_owned());
        args.push("-pix_fmt".to_owned());
        args.push("yuv420p".to_owned());
        args.push("-vf".to_owned());
        args.push("scale=trunc(iw/2)*2:trunc(ih/2)*2".to_owned());
        args.push("-c:a".to_owned());
        args.push(self.config.audio_codec.clone());
        args.push("-b:a".to_owned());
        args.push(self.config.audio_bitrate.clone());
        args.push("-ac".to_owned());
        args.push("2".to_owned());
        args.push("-threads".to_owned());
        args.push("0".to_owned());
        args.push("-movflags".to_owned());
        args.push("+faststart".to_owned());
        args.push("-max_muxing_queue_size".to_owned());
        args.push("1024".to_owned());
        args.push(output);
        assert(texts(args@) =~= transcode_args(
            self.spec_config(),
            input_path@,
            processed_path(self.dir(), job@.id),
        ));
        CommandPlan {
            program: self.config.ffmpeg_command.clone(),
            args,
            timeout_secs: self.config.processing_timeout,
        }
    }

    /// Decides how the transcode stage ends for `job`, given how the
    /// transcoder ended and whether its output file exists. A partial
    /// output left by a timeout or a failed run is to be unlinked.
    pub fn conclude(&self, job: &Job, outcome: &ProcessOutcome, output_exists: bool) -> (v:
        StageVerdict)
        ensures
            failure_of(v.result) == transcode_failure(
                *outcome,
                processed_path(self.dir(), job@.id),
                output_exists,
                self.spec_config().processing_timeout as nat,
            ),
            v.result matches Ok(path) ==> path@ == processed_path(self.dir(), job@.id),
            match v.remove {
                Some(path) => transcode_leaves_partial(*outcome, output_exists) && path@
                    == processed_path(self.dir(), job@.id),
                None => !transcode_leaves_partial(*outcome, output_exists),
            },
    {
        let output = self.output_path(job.id.as_str());
        match outcome {
            ProcessOutcome::TimedOut => {
                let mut m: Vec<char> = Vec::new();
                push_str(&mut m, "Processing timed out after ");
                push_decimal(&mut m, self.config.processing_timeout);
                push_str(&mut m, " seconds");
                assert(m@ =~= processing_timeout_message(self.config.processing_timeout as nat));
                StageVerdict {
                    result: Err(AppError::Timeout(string_of(&m))),
                    remove: if output_exists {
                        Some(output)
                    } else {
                        None
                    },
                }
            },
            ProcessOutcome::SpawnFailed(words) => {
                let mut m: Vec<char> = Vec::new();
                push_str(&mut m, "FFmpeg command failed: ");
                push_str(&mut m, words.as_str());
                assert(m@ =~= "FFmpeg command failed: "@ + words@);
                StageVerdict { result: Err(AppError::Processing(string_of(&m))), remove: None }
            },
            ProcessOutcome::Exited { success, stderr } => {
                if !*success {
                    return StageVerdict {
                        result: Err(AppError::Processing(stderr.clone())),
                        remove: if output_exists {
                            Some(output)
                        } else {
                            None
                        },
                    };
                }
                if !output_exists {
                    let mut m: Vec<char> = Vec::new();
                    push_str(&mut m, "Output file not created: ");
                    push_str(&mut m, output.as_str());
                    assert(m@ =~= "Output file not created: "@ + output@);
                    return StageVerdict {
                        result: Err(AppError::Processing(string_of(&m))),
                        remove: None,
                    };
                }
                StageVerdict { result: Ok(output), remove: None }
            },
        }
    }
}

} // verus!
