//! Health reporting: how the single checks add up to the state of the
//! service, and what each health endpoint answers.

use vstd::prelude::*;
use crate::error::{AppError, AppResult, ErrorKind};
use crate::text::{concat2, opt_text, str_eq};

verus! {

/// The health of the service at one instant.
#[derive(Debug, Clone)]
pub struct HealthStatus {
    pub status: String,
    pub timestamp: u64,
    pub version: String,
    pub uptime_seconds: u64,
    pub checks: HealthChecks,
}

/// The three checks.
#[derive(Debug, Clone)]
pub struct HealthChecks {
    pub database: CheckResult,
    pub disk_space: CheckResult,
    pub dependencies: CheckResult,
}

/// The outcome of one check: `healthy`, `degraded` or `critical`.
#[derive(Debug, Clone)]
pub struct CheckResult {
    pub status: String,
    pub message: Option<String>,
    pub response_time_ms: Option<u64>,
}

/// The state of the service given the states of the database, the disk
/// and the tools: healthy if all three are, critical if the database is,
/// degraded otherwise.
pub open spec fn overall(database: Seq<char>, disk_space: Seq<char>, dependencies: Seq<char>)
    -> Seq<char> {
    if database == "healthy"@ && disk_space == "healthy"@ && dependencies == "healthy"@ {
        "healthy"@
    } else if database == "critical"@ {
        "critical"@
    } else {
        "degraded"@
    }
}

impl CheckResult {
    /// The outcome of the database check, given how long the probe took
    /// in milliseconds or the words of its failure.
    pub fn database(probe: Result<u64, String>) -> (c: CheckResult)
        ensures
            match probe {
                Ok(ms) => c.status@ == "healthy"@ && opt_text(c.message) == Some(
                    "Database connection successful"@,
                ) && c.response_time_ms == Some(ms),
                Err(words) => c.status@ == "critical"@ && opt_text(c.message) == Some(
                    "Database connection failed: "@ + words@,
                ) && c.response_time_ms is None,
            },
    {
        match probe {
            Ok(ms) => CheckResult {
                status: "healthy".to_owned(),
                message: Some("Database connection successful".to_owned()),
                response_time_ms: Some(ms),
            },
            Err(words) => CheckResult {
                status: "critical".to_owned(),
                message: Some(concat2("Database connection failed: ", words.as_str())),
                response_time_ms: None,
            },
        }
    }

    /// The outcome of the working-directory check, given the words of the
    /// failure if the directory could not be read.
    pub fn working_dir(failure: Option<String>) -> (c: CheckResult)
        ensures
            match failure {
                None => c.status@ == "healthy"@ && opt_text(c.message) == Some(
                    "Working directory accessible"@,
                ) && c.response_time_ms == Some(0u64),
                Some(words) => c.status@ == "critical"@ && opt_text(c.message) == Some(
                    "Working directory inaccessible: "@ + words@,
                ) && c.response_time_ms is None,
            },
    {
        match failure {
            None => CheckResult {
                status: "healthy".to_owned(),
                message: Some("Working directory accessible".to_owned()),
                response_time_ms: Some(0),
            },
            Some(words) => CheckResult {
                status: "critical".to_owned(),
                message: Some(concat2("Working directory inaccessible: ", words.as_str())),
                response_time_ms: None,
            },
        }
    }

    /// The outcome of the check for the downloader and the transcoder,
    /// given whether each could be run.
    pub fn dependencies(downloader_runs: bool, transcoder_runs: bool) -> (c: CheckResult)
        ensures
            if downloader_runs && transcoder_runs {
                c.status@ == "healthy"@ && opt_text(c.message) == Some(
                    "All dependencies available"@,
                ) && c.response_time_ms == Some(10u64)
            } else {
                c.status@ == "degraded"@ && opt_text(c.message) == Some(
                    "Some dependencies may be missing"@,
                ) && c.response_time_ms is None
            },
    {
        if downloader_runs && transcoder_runs {
            CheckResult {
                status: "healthy".to_owned(),
                message: Some("All dependencies available".to_owned()),
                response_time_ms: Some(10),
            }
        } else {
            CheckResult {
                status: "degraded".to_owned(),
                message: Some("Some dependencies may be missing".to_owned()),
                response_time_ms: None,
            }
        }
    }
}

impl HealthChecks {
    /// The state of the service that these checks add up to.
    pub fn overall_status(&self) -> (s: &'static str)
        ensures
            s@ == overall(self.database.status@, self.disk_space.status@, self.dependencies.status@),
    {
        if str_eq(self.database.status.as_str(), "healthy") && str_eq(
            self.disk_space.status.as_str(),
            "healthy",
        ) && str_eq(self.dependencies.status.as_str(), "healthy") {
            "healthy"
        } else if str_eq(self.database.status.as_str(), "critical") {
            "critical"
        } else {
            "degraded"
        }
    }
}

impl HealthStatus {
    /// The health document for the given checks, instant, version and uptime.
    pub fn new(checks: HealthChecks, timestamp: u64, version: &str, uptime_seconds: u64) -> (h:
        HealthStatus)
        ensures
            h.status@ == overall(
                checks.database.status@,
                checks.disk_space.status@,
                checks.dependencies.status@,
            ),
            h.timestamp == timestamp,
            h.version@ == version@,
            h.uptime_seconds == uptime_seconds,
            h.checks == checks,
    {
        let status = checks.overall_status().to_owned();
        HealthStatus { status, timestamp, version: version.to_owned(), uptime_seconds, checks }
    }

    /// What the health endpoint answers: the document while the service
    /// is healthy or degraded, a failure in any other state.
    pub fn health_answer(&self) -> (r: AppResult<()>)
        ensures
            r is Ok <==> (self.status@ == "healthy"@ || self.status@ == "degraded"@),
            r matches Err(e) ==> e@ == (ErrorKind::Internal, "Service unhealthy"@),
    {
        if str_eq(self.status.as_str(), "healthy") || str_eq(self.status.as_str(), "degraded") {
            Ok(())
        } else {
            Err(AppError::Internal("Service unhealthy".to_owned()))
        }
    }

    /// What the readiness endpoint answers: ready while the database is
    /// healthy, a failure otherwise.
    pub fn readiness_answer(&self) -> (r: AppResult<()>)
        ensures
            r is Ok <==> self.checks.database.status@ == "healthy"@,
            r matches Err(e) ==> e@ == (ErrorKind::Internal, "Service not ready"@),
    {
        if str_eq(self.checks.database.status.as_str(), "healthy") {
            Ok(())
        } else {
            Err(AppError::Internal("Service not ready".to_owned()))
        }
    }
}

} // verus!
