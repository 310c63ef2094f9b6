//! The upload-and-extract protocol driver.
//!
//! The driver is a state machine over the stages of one extraction: request
//! an upload slot, transfer the bytes, start the job, then poll at a fixed
//! interval until the job is ready or a wall-clock budget runs out. The
//! caller performs the HTTP calls and the sleeps and feeds every reply back
//! in as plain values; the driver alone decides what each reply means, and
//! its transitions are strictly linear — the first failure of any kind is
//! terminal.
//!
//! The poll budget is proved here: however the reported clock behaves, the
//! driver never asks for more than `timeout / poll_interval + 1` status
//! checks, because each check commits it to a full interval of sleep before
//! the next one.

use vstd::prelude::*;
use vstd::pervasive::unreached;
use vstd::string::StringExecFns;
use crate::errors::ExtractError;
use crate::result::ExtractionResultData;

verus! {

/// The stage an extraction is in. The terminal stages are `Ready`, `Failed`
/// and `TimedOut`; no transition leaves them.
#[derive(Clone, Copy, PartialEq, Eq, Structural, Debug)]
pub enum Stage {
    Initiating,
    Uploading,
    ExtractionStarted,
    Polling,
    Ready,
    Failed,
    TimedOut,
}

/// What the start-upload reply grants: the vendor's handle for the file and
/// the single-use URL the bytes go to.
#[derive(Debug)]
pub struct UploadSlot {
    pub file_id: String,
    pub upload_url: String,
}

/// One status-check reply, already read into plain values.
#[derive(Debug)]
pub struct PollReply {
    pub ready: bool,
    pub data: Option<ExtractionResultData>,
}

/// An HTTP status code counts as success exactly when it lies in the 2xx
/// range.
pub fn status_is_success(status: u16) -> (r: bool)
    ensures
        r == (200 <= status && status < 300),
{
    200 <= status && status < 300
}

/// The driver for one extraction run.
pub struct Driver {
    stage: Stage,
    poll_interval: u64,
    timeout: u64,
    checks: u64,
    committed: u64,
    file_id: Option<String>,
    upload_url: Option<String>,
    extraction_id: Option<String>,
}

impl Driver {
    /// The stage the run is in.
    pub closed spec fn spec_stage(&self) -> Stage {
        self.stage
    }

    /// The fixed number of seconds between status checks.
    pub closed spec fn spec_poll_interval(&self) -> u64 {
        self.poll_interval
    }

    /// The wall-clock budget of the polling phase, in seconds.
    pub closed spec fn spec_timeout(&self) -> u64 {
        self.timeout
    }

    /// How many status checks have been asked for so far.
    pub closed spec fn spec_checks(&self) -> u64 {
        self.checks
    }

    /// The seconds of wall time this run has committed to before the next
    /// check may happen: one full sleep interval per check already made.
    pub closed spec fn spec_committed(&self) -> u64 {
        self.committed
    }

    /// The vendor's handle for the uploaded file.
    pub closed spec fn spec_file_id(&self) -> Option<Seq<char>> {
        match self.file_id {
            Some(s) => Some(s@),
            None => None,
        }
    }

    /// The single-use URL the file's bytes go to.
    pub closed spec fn spec_upload_url(&self) -> Option<Seq<char>> {
        match self.upload_url {
            Some(s) => Some(s@),
            None => None,
        }
    }

    /// The vendor's handle for the running extraction job.
    pub closed spec fn spec_extraction_id(&self) -> Option<Seq<char>> {
        match self.extraction_id {
            Some(s) => Some(s@),
            None => None,
        }
    }

    /// The driver's invariant: the configuration is sane, the committed
    /// sleep time covers one interval per check and never outruns the budget
    /// by more than one interval, and each stage holds the handles it needs.
    pub closed spec fn wf(&self) -> bool {
        &&& 1 <= self.poll_interval
        &&& self.timeout <= u64::MAX - self.poll_interval
        &&& self.checks * self.poll_interval <= self.committed
        &&& self.committed <= self.timeout + self.poll_interval
        &&& (self.stage is Uploading ==> self.file_id is Some && self.upload_url is Some)
        &&& (self.stage is ExtractionStarted ==> self.file_id is Some)
        &&& (self.stage is Polling ==> self.extraction_id is Some)
    }

    /// Both drivers run with the same interval and budget.
    pub open spec fn same_config(&self, other: &Driver) -> bool {
        self.spec_poll_interval() == other.spec_poll_interval() && self.spec_timeout()
            == other.spec_timeout()
    }

    /// Sets up a run that will poll every `poll_interval` seconds and give up
    /// `timeout` seconds after the job was started.
    pub fn new(poll_interval: u64, timeout: u64) -> (d: Driver)
        requires
            1 <= poll_interval,
            timeout <= u64::MAX - poll_interval,
        ensures
            d.wf(),
            d.spec_stage() is Initiating,
            d.spec_checks() == 0,
            d.spec_poll_interval() == poll_interval,
            d.spec_timeout() == timeout,
    {
        Driver {
            stage: Stage::Initiating,
            poll_interval,
            timeout,
            checks: 0,
            committed: 0,
            file_id: None,
            upload_url: None,
            extraction_id: None,
        }
    }

    /// The stage the run is in, for the caller's control flow.
    pub fn stage(&self) -> (st: Stage)
        ensures
            st == self.spec_stage(),
    {
        self.stage
    }

    /// The seconds between status checks.
    pub fn poll_interval(&self) -> (r: u64)
        ensures
            r == self.spec_poll_interval(),
    {
        self.poll_interval
    }

    /// Checks that the input file exists before anything is sent: a missing
    /// file is terminal at once, so no request is ever issued for it.
    pub fn check_file(&mut self, file_exists: bool, path: &str) -> (r: Result<(), ExtractError>)
        requires
            old(self).wf(),
            old(self).spec_stage() is Initiating,
        ensures
            final(self).wf(),
            final(self).same_config(old(self)),
            file_exists ==> r is Ok && final(self).spec_stage() is Initiating,
            !file_exists ==> (r matches Err(ExtractError::FileNotFound { path: p }) && p@ == path@
                && final(self).spec_stage() is Failed),
    {
        if file_exists {
            Ok(())
        } else {
            self.stage = Stage::Failed;
            Err(ExtractError::FileNotFound { path: String::from_str(path) })
        }
    }

    /// Takes the start-upload reply. A 2xx status with a readable body grants
    /// the upload slot and moves the run to `Uploading`; anything else is
    /// terminal with the status and body in the error.
    pub fn on_upload_slot(&mut self, status: u16, body: String, slot: Option<UploadSlot>) -> (r:
        Result<(), ExtractError>)
        requires
            old(self).wf(),
            old(self).spec_stage() is Initiating,
        ensures
            final(self).wf(),
            final(self).same_config(old(self)),
            r is Ok <==> (200 <= status < 300 && slot is Some),
            r is Ok ==> final(self).spec_stage() is Uploading && final(self).spec_file_id()
                == Some(slot->0.file_id@) && final(self).spec_upload_url() == Some(
                slot->0.upload_url@,
            ),
            r matches Err(e) ==> final(self).spec_stage() is Failed && (e matches
                ExtractError::UploadInit { status: st, body: b } && st == status && b@ == body@),
    {
        if status_is_success(status) {
            match slot {
                Some(s) => {
                    self.file_id = Some(s.file_id);
                    self.upload_url = Some(s.upload_url);
                    self.stage = Stage::Uploading;
                    Ok(())
                },
                None => {
                    self.stage = Stage::Failed;
                    Err(ExtractError::UploadInit { status, body })
                },
            }
        } else {
            self.stage = Stage::Failed;
            Err(ExtractError::UploadInit { status, body })
        }
    }

    /// The URL the file's bytes must be sent to.
    pub fn upload_url<'a>(&'a self) -> (r: &'a str)
        requires
            self.wf(),
            self.spec_stage() is Uploading,
        ensures
            Some(r@) == self.spec_upload_url(),
    {
        match &self.upload_url {
            Some(u) => u.as_str(),
            None => unreached(),
        }
    }

    /// Takes the reply of the byte transfer. A 2xx status moves the run on
    /// to `ExtractionStarted`; anything else is terminal.
    pub fn on_upload_done(&mut self, status: u16, body: String) -> (r: Result<(), ExtractError>)
        requires
            old(self).wf(),
            old(self).spec_stage() is Uploading,
        ensures
            final(self).wf(),
            final(self).same_config(old(self)),
            final(self).spec_file_id() == old(self).spec_file_id(),
            r is Ok <==> 200 <= status < 300,
            r is Ok ==> final(self).spec_stage() is ExtractionStarted,
            r matches Err(e) ==> final(self).spec_stage() is Failed && (e matches
                ExtractError::UploadTransfer { status: st, body: b } && st == status && b@
                == body@),
    {
        if status_is_success(status) {
            self.stage = Stage::ExtractionStarted;
            Ok(())
        } else {
            self.stage = Stage::Failed;
            Err(ExtractError::UploadTransfer { status, body })
        }
    }

    /// The vendor's handle for the uploaded file, for the start-extraction
    /// request.
    pub fn file_id<'a>(&'a self) -> (r: &'a str)
        requires
            self.wf(),
            self.spec_stage() is ExtractionStarted,
        ensures
            Some(r@) == self.spec_file_id(),
    {
        match &self.file_id {
            Some(f) => f.as_str(),
            None => unreached(),
        }
    }

    /// Takes the start-extraction reply. A 2xx status with a readable body
    /// carrying the job's handle opens the polling phase with a fresh clock;
    /// anything else is terminal.
    pub fn on_extraction_started(
        &mut self,
        status: u16,
        body: String,
        extraction_id: Option<String>,
    ) -> (r: Result<(), ExtractError>)
        requires
            old(self).wf(),
            old(self).spec_stage() is ExtractionStarted,
        ensures
            final(self).wf(),
            final(self).same_config(old(self)),
            r is Ok <==> (200 <= status < 300 && extraction_id is Some),
            r is Ok ==> final(self).spec_stage() is Polling && final(self).spec_checks() == 0
                && final(self).spec_extraction_id() == Some(extraction_id->0@),
            r matches Err(e) ==> final(self).spec_stage() is Failed && (e matches
                ExtractError::ExtractionStart { status: st, body: b } && st == status && b@
                == body@),
    {
        if status_is_success(status) {
            match extraction_id {
                Some(id) => {
                    self.extraction_id = Some(id);
                    self.stage = Stage::Polling;
                    self.checks = 0;
                    self.committed = 0;
                    Ok(())
                },
                None => {
                    self.stage = Stage::Failed;
                    Err(ExtractError::ExtractionStart { status, body })
                },
            }
        } else {
            self.stage = Stage::Failed;
            Err(ExtractError::ExtractionStart { status, body })
        }
    }

    /// The vendor's handle for the running job, for the status URL.
    pub fn extraction_id<'a>(&'a self) -> (r: &'a str)
        requires
            self.wf(),
            self.spec_stage() is Polling,
        ensures
            Some(r@) == self.spec_extraction_id(),
    {
        match &self.extraction_id {
            Some(id) => id.as_str(),
            None => unreached(),
        }
    }

    /// Decides, at the top of each polling round, whether to check again.
    ///
    /// `elapsed_seconds` is the wall time since the job was started, as the
    /// caller measured it; the driver holds it to at least one sleep interval
    /// per check already made. Once that clock passes the budget the run is
    /// terminal with a timeout; otherwise the next status check is granted.
    pub fn poll_tick(&mut self, elapsed_seconds: u64) -> (r: Result<(), ExtractError>)
        requires
            old(self).wf(),
            old(self).spec_stage() is Polling,
        ensures
            final(self).wf(),
            final(self).same_config(old(self)),
            final(self).spec_extraction_id() == old(self).spec_extraction_id(),
            ({
                let clock = if elapsed_seconds >= old(self).spec_committed() {
                    elapsed_seconds
                } else {
                    old(self).spec_committed()
                };
                &&& (r is Err <==> clock > old(self).spec_timeout())
                &&& (r matches Err(e) ==> e == (ExtractError::Timeout {
                    seconds: old(self).spec_timeout(),
                }) && final(self).spec_stage() is TimedOut)
                &&& (r is Ok ==> final(self).spec_stage() is Polling && final(self).spec_checks()
                    == old(self).spec_checks() + 1)
            }),
    {
        let clock = if elapsed_seconds >= self.committed {
            elapsed_seconds
        } else {
            self.committed
        };
        if clock > self.timeout {
            self.stage = Stage::TimedOut;
            return Err(ExtractError::Timeout { seconds: self.timeout });
        }
        proof {
            assert(self.checks * self.poll_interval <= clock);
            assert(self.checks <= clock) by (nonlinear_arith)
                requires
                    self.checks * self.poll_interval <= clock,
                    1 <= self.poll_interval,
            ;
            assert((self.checks + 1) * self.poll_interval == self.checks * self.poll_interval
                + self.poll_interval) by (nonlinear_arith);
        }
        self.checks = self.checks + 1;
        self.committed = clock + self.poll_interval;
        Ok(())
    }

    /// Takes one status-check reply.
    ///
    /// A failed check or an unreadable body is terminal. A pending job
    /// (`ready` false) keeps the run polling and asks the caller to sleep one
    /// interval. A ready job ends the run: with `success` it yields the
    /// payload, without it the vendor's error message — word for word — in
    /// an extraction failure, and a ready reply with no payload at all is
    /// reported like a failed check.
    pub fn on_poll_reply(&mut self, status: u16, body: String, reply: Option<PollReply>) -> (r:
        Result<Option<ExtractionResultData>, ExtractError>)
        requires
            old(self).wf(),
            old(self).spec_stage() is Polling,
        ensures
            final(self).wf(),
            final(self).same_config(old(self)),
            final(self).spec_extraction_id() == old(self).spec_extraction_id(),
            final(self).spec_checks() == old(self).spec_checks(),
            ({
                let poll_err = r matches Err(ExtractError::Poll { status: st, body: b }) && st
                    == status && b@ == body@ && final(self).spec_stage() is Failed;
                if !(200 <= status < 300) {
                    poll_err
                } else {
                    match reply {
                        None => poll_err,
                        Some(p) => if !p.ready {
                            r == Ok::<Option<ExtractionResultData>, ExtractError>(None)
                                && final(self).spec_stage() is Polling
                        } else {
                            match p.data {
                                None => poll_err,
                                Some(d) => if d.success {
                                    r matches Ok(Some(out)) && out == d
                                        && final(self).spec_stage() is Ready
                                } else {
                                    r matches Err(ExtractError::ExtractionFailed { message: m })
                                        && final(self).spec_stage() is Failed && (match d.error {
                                        Some(em) => m@ == em@,
                                        None => m@ == "Unknown error"@,
                                    })
                                },
                            }
                        },
                    }
                }
            }),
    {
        if !status_is_success(status) {
            self.stage = Stage::Failed;
            return Err(ExtractError::Poll { status, body });
        }
        match reply {
            None => {
                self.stage = Stage::Failed;
                Err(ExtractError::Poll { status, body })
            },
            Some(p) => {
                if !p.ready {
                    return Ok(None);
                }
                match p.data {
                    None => {
                        self.stage = Stage::Failed;
                        Err(ExtractError::Poll { status, body })
                    },
                    Some(d) => {
                        if d.success {
                            self.stage = Stage::Ready;
                            Ok(Some(d))
                        } else {
                            self.stage = Stage::Failed;
                            let message = match d.error {
                                Some(em) => em,
                                None => String::from_str("Unknown error"),
                            };
                            Err(ExtractError::ExtractionFailed { message })
                        }
                    },
                }
            },
        }
    }
}

/// The poll budget: a well-formed driver never asks for more than
/// `timeout / poll_interval + 1` status checks, however the reported clock
/// behaves, because each check commits a full sleep interval and a check is
/// only granted while the committed time is within the budget.
pub proof fn lemma_poll_checks_bounded(d: &Driver)
    requires
        d.wf(),
    ensures
        d.spec_checks() <= d.spec_timeout() / d.spec_poll_interval() + 1,
{
    let c = d.spec_checks() as int;
    let i = d.spec_poll_interval() as int;
    let t = d.spec_timeout() as int;
    assert(c * i <= t + i);
    assert(c <= t / i + 1) by (nonlinear_arith)
        requires
            c * i <= t + i,
            1 <= i,
            0 <= c,
            0 <= t,
    ;
}

} // verus!
