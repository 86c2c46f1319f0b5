//! Job statuses and the transitions between them.

use vstd::prelude::*;
use crate::text::str_eq;

verus! {

/// Where a job stands in its life.
///
/// `Pending` and `Claimed` jobs wait for a worker, `Downloading` and
/// `Processing` jobs are with one, and the other three statuses are final.
#[derive(Debug, Clone, Copy, PartialEq, Eq, Hash, Structural)]
pub enum JobStatus {
    Pending,
    Claimed,
    Downloading,
    Processing,
    Completed,
    Failed,
    Cancelled,
}

/// A status with no way out: `Completed`, `Failed` or `Cancelled`.
pub open spec fn is_terminal(s: JobStatus) -> bool {
    s == JobStatus::Completed || s == JobStatus::Failed || s == JobStatus::Cancelled
}

/// The moves a job can make. A job is claimed and released while it waits,
/// goes through download and transcode in that order, and can fail or be
/// cancelled at any point before it is final.
pub open spec fn legal_transition(from: JobStatus, to: JobStatus) -> bool {
    match from {
        JobStatus::Pending => to == JobStatus::Claimed || to == JobStatus::Downloading || to
            == JobStatus::Failed || to == JobStatus::Cancelled,
        JobStatus::Claimed => to == JobStatus::Pending || to == JobStatus::Downloading || to
            == JobStatus::Failed || to == JobStatus::Cancelled,
        JobStatus::Downloading => to == JobStatus::Processing || to == JobStatus::Failed || to
            == JobStatus::Cancelled,
        JobStatus::Processing => to == JobStatus::Completed || to == JobStatus::Failed || to
            == JobStatus::Cancelled,
        JobStatus::Completed => false,
        JobStatus::Failed => false,
        JobStatus::Cancelled => false,
    }
}

/// A row may be rewritten with status `to` when it now has status `from`:
/// either the status stays, or the move is legal.
pub open spec fn may_become(from: JobStatus, to: JobStatus) -> bool {
    from == to || legal_transition(from, to)
}

/// The name under which a status is stored and shown.
pub open spec fn status_name(s: JobStatus) -> Seq<char> {
    match s {
        JobStatus::Pending => "Pending"@,
        JobStatus::Claimed => "Claimed"@,
        JobStatus::Downloading => "Downloading"@,
        JobStatus::Processing => "Processing"@,
        JobStatus::Completed => "Completed"@,
        JobStatus::Failed => "Failed"@,
        JobStatus::Cancelled => "Cancelled"@,
    }
}

/// The status that a stored name stands for, if it is one of the seven names.
pub open spec fn status_named(name: Seq<char>) -> Option<JobStatus> {
    if name == "Pending"@ {
        Some(JobStatus::Pending)
    } else if name == "Claimed"@ {
        Some(JobStatus::Claimed)
    } else if name == "Downloading"@ {
        Some(JobStatus::Downloading)
    } else if name == "Processing"@ {
        Some(JobStatus::Processing)
    } else if name == "Completed"@ {
        Some(JobStatus::Completed)
    } else if name == "Failed"@ {
        Some(JobStatus::Failed)
    } else if name == "Cancelled"@ {
        Some(JobStatus::Cancelled)
    } else {
        None
    }
}

/// The status that a listing filter selects, given the filter in lower case.
/// `Claimed` cannot be asked for.
pub open spec fn status_filter_named(lower: Seq<char>) -> Option<JobStatus> {
    if lower == "pending"@ {
        Some(JobStatus::Pending)
    } else if lower == "downloading"@ {
        Some(JobStatus::Downloading)
    } else if lower == "processing"@ {
        Some(JobStatus::Processing)
    } else if lower == "completed"@ {
        Some(JobStatus::Completed)
    } else if lower == "failed"@ {
        Some(JobStatus::Failed)
    } else if lower == "cancelled"@ {
        Some(JobStatus::Cancelled)
    } else {
        None
    }
}

impl JobStatus {
    /// Whether this status is final.
    pub fn is_terminal(&self) -> (b: bool)
        ensures
            b == is_terminal(*self),
    {
        match self {
            JobStatus::Completed => true,
            JobStatus::Failed => true,
            JobStatus::Cancelled => true,
            _ => false,
        }
    }

    /// Whether a job in this status may move to `to`.
    pub fn can_transition_to(&self, to: JobStatus) -> (b: bool)
        ensures
            b == legal_transition(*self, to),
    {
        match self {
            JobStatus::Pending => to == JobStatus::Claimed || to == JobStatus::Downloading || to
                == JobStatus::Failed || to == JobStatus::Cancelled,
            JobStatus::Claimed => to == JobStatus::Pending || to == JobStatus::Downloading || to
                == JobStatus::Failed || to == JobStatus::Cancelled,
            JobStatus::Downloading => to == JobStatus::Processing || to == JobStatus::Failed || to
                == JobStatus::Cancelled,
            JobStatus::Processing => to == JobStatus::Completed || to == JobStatus::Failed || to
                == JobStatus::Cancelled,
            JobStatus::Completed => false,
            JobStatus::Failed => false,
            JobStatus::Cancelled => false,
        }
    }

    /// The name under which this status is stored and shown.
    pub fn as_str(&self) -> (name: &'static str)
        ensures
            name@ == status_name(*self),
    {
        match self {
            JobStatus::Pending => "Pending",
            JobStatus::Claimed => "Claimed",
            JobStatus::Downloading => "Downloading",
            JobStatus::Processing => "Processing",
            JobStatus::Completed => "Completed",
            JobStatus::Failed => "Failed",
            JobStatus::Cancelled => "Cancelled",
        }
    }

    /// The name of this status as an owned string.
    pub fn to_display_string(&self) -> (name: String)
        ensures
            name@ == status_name(*self),
    {
        self.as_str().to_owned()
    }

    /// Reads a stored status name. `None` for anything but the seven names.
    pub fn parse(name: &str) -> (s: Option<JobStatus>)
        ensures
            s == status_named(name@),
    {
        if str_eq(name, "Pending") {
            Some(JobStatus::Pending)
        } else if str_eq(name, "Claimed") {
            Some(JobStatus::Claimed)
        } else if str_eq(name, "Downloading") {
            Some(JobStatus::Downloading)
        } else if str_eq(name, "Processing") {
            Some(JobStatus::Processing)
        } else if str_eq(name, "Completed") {
            Some(JobStatus::Completed)
        } else if str_eq(name, "Failed") {
            Some(JobStatus::Failed)
        } else if str_eq(name, "Cancelled") {
            Some(JobStatus::Cancelled)
        } else {
            None
        }
    }

    /// Reads a stored status name, taking an unknown name for `Failed`.
    pub fn from_stored(name: &str) -> (s: JobStatus)
        ensures
            s == match status_named(name@) {
                Some(known) => known,
                None => JobStatus::Failed,
            },
    {
        match JobStatus::parse(name) {
            Some(known) => known,
            None => JobStatus::Failed,
        }
    }

    /// Reads a listing filter that has been put in lower case.
    pub fn from_filter(lower: &str) -> (s: Option<JobStatus>)
        ensures
            s == status_filter_named(lower@),
    {
        if str_eq(lower, "pending") {
            Some(JobStatus::Pending)
        } else if str_eq(lower, "downloading") {
            Some(JobStatus::Downloading)
        } else if str_eq(lower, "processing") {
            Some(JobStatus::Processing)
        } else if str_eq(lower, "completed") {
            Some(JobStatus::Completed)
        } else if str_eq(lower, "failed") {
            Some(JobStatus::Failed)
        } else if str_eq(lower, "cancelled") {
            Some(JobStatus::Cancelled)
        } else {
            None
        }
    }
}

/// A final status allows no move, and no move leads out of one.
pub proof fn lemma_terminal_is_closed(from: JobStatus, to: JobStatus)
    requires
        is_terminal(from),
    ensures
        !legal_transition(from, to),
        may_become(from, to) ==> to == from,
{
}

/// Reading the name of a status gives the status back.
pub proof fn lemma_status_name_round_trip(s: JobStatus)
    ensures
        status_named(status_name(s)) == Some(s),
{
    reveal_strlit("Pending");
    reveal_strlit("Claimed");
    reveal_strlit("Downloading");
    reveal_strlit("Processing");
    reveal_strlit("Completed");
    reveal_strlit("Failed");
    reveal_strlit("Cancelled");
    match s {
        JobStatus::Pending => {},
        JobStatus::Claimed => {
            assert("Claimed"@[0] != "Pending"@[0]);
        },
        JobStatus::Downloading => {
            assert("Downloading"@[0] != "Pending"@[0]);
            assert("Downloading"@[0] != "Claimed"@[0]);
        },
        JobStatus::Processing => {
            assert("Processing"@[1] != "Pending"@[1]);
            assert("Processing"@[0] != "Claimed"@[0]);
            assert("Processing"@[0] != "Downloading"@[0]);
        },
        JobStatus::Completed => {
            assert("Completed"@[0] != "Pending"@[0]);
            assert("Completed"@[1] != "Claimed"@[1]);
            assert("Completed"@[0] != "Downloading"@[0]);
            assert("Completed"@[0] != "Processing"@[0]);
        },
        JobStatus::Failed => {
            assert("Failed"@[0] != "Pending"@[0]);
            assert("Failed"@[0] != "Claimed"@[0]);
            assert("Failed"@[0] != "Downloading"@[0]);
            assert("Failed"@[0] != "Processing"@[0]);
            assert("Failed"@[0] != "Completed"@[0]);
        },
        JobStatus::Cancelled => {
            assert("Cancelled"@[0] != "Pending"@[0]);
            assert("Cancelled"@[1] != "Claimed"@[1]);
            assert("Cancelled"@[0] != "Downloading"@[0]);
            assert("Cancelled"@[0] != "Processing"@[0]);
            assert("Cancelled"@[1] != "Completed"@[1]);
            assert("Cancelled"@[0] != "Failed"@[0]);
        },
    }
}

} // verus!
