//! Job descriptions and their computations.
//!
//! A [`Job`] is an immutable description of a unit of work: a script to run,
//! an optional stdin payload, and the file names of its streams.  A
//! [`Computation`] is a job bound to a freshly created, exclusively owned
//! working directory, together with its lifecycle state: *Created* →
//! *Started* → *Completed* or *Failed*, never resurrected from a terminal
//! state.  Spawning, waiting and reading files are done by the surrounding
//! application, which reports each outcome as a plain value; the state
//! machine, the retry rule and the path arithmetic are verified here.

use rand::distributions::Alphanumeric;
use rand::Rng;

use crate::error::Error;
use vstd::prelude::*;
use vstd::string::StringExecFns;

verus! {

/// The mathematical value of a [`Job`].
pub struct JobV {
    pub name: Seq<char>,
    pub input: Seq<char>,
    pub script: Seq<char>,
    pub inp_file: Seq<char>,
    pub out_file: Seq<char>,
    pub err_file: Seq<char>,
    pub run_file: Seq<char>,
    pub extra_files: Seq<Seq<char>>,
}

/// Represents a computational job inputted by user.
#[derive(Debug)]
pub struct Job {
    /// A unique random name.
    name: String,
    /// Input string for stdin.
    input: String,
    /// The content of running script.
    script: String,
    /// Name of the file saving the input stream of computation.
    pub inp_file: String,
    /// Name of the file saving the output stream of computation.
    pub out_file: String,
    /// Name of the file saving the error stream of computation.
    pub err_file: String,
    /// Name of the script file that defines how to start computation.
    pub run_file: String,
    /// Extra files required for computation.
    pub extra_files: Vec<String>,
}

impl View for Job {
    type V = JobV;

    closed spec fn view(&self) -> JobV {
        JobV {
            name: self.name@,
            input: self.input@,
            script: self.script@,
            inp_file: self.inp_file@,
            out_file: self.out_file@,
            err_file: self.err_file@,
            run_file: self.run_file@,
            extra_files: self.extra_files@.map_values(|s: String| s@),
        }
    }
}

/// Relies on rand's thread-local generator and `Alphanumeric` distribution:
/// six alphanumeric characters; nothing is assumed about which ones.
#[verifier::external_body]
fn random_name() -> (name: String)
    ensures
        name@.len() == 6,
{
    let rng = rand::thread_rng();
    rng.sample_iter(Alphanumeric).take(6).map(char::from).collect()
}

/// True when one of the strings in `v` holds the same characters as `s`.
fn contains_string(v: &Vec<String>, s: &String) -> (r: bool)
    ensures
        r == v@.map_values(|x: String| x@).contains(s@),
{
    let ghost m = v@.map_values(|x: String| x@);
    let n = v.len();
    for i in 0..n
        invariant
            n == v@.len(),
            m == v@.map_values(|x: String| x@),
            forall|j: int| 0 <= j < i ==> m[j] != s@,
    {
        if v[i] == *s {
            assert(m[i as int] == s@);
            return true;
        }
        assert(m[i as int] != s@);
    }
    assert(!m.contains(s@));
    false
}

impl Job {
    /// Construct a Job running shell script.
    ///
    /// The job gets a fresh random six-character name, the given script, an
    /// empty stdin payload, the default stream file names, and no extra
    /// files.
    pub fn new(script: &str) -> (job: Job)
        ensures
            job@.script == script@,
            job@.input == Seq::<char>::empty(),
            job@.name.len() == 6,
            job@.inp_file == "job.inp"@,
            job@.out_file == "job.out"@,
            job@.err_file == "job.err"@,
            job@.run_file == "run"@,
            job@.extra_files == Seq::<Seq<char>>::empty(),
    {
        let job = Job {
            name: random_name(),
            script: String::from_str(script),
            input: String::new(),
            inp_file: String::from_str("job.inp"),
            out_file: String::from_str("job.out"),
            err_file: String::from_str("job.err"),
            run_file: String::from_str("run"),
            extra_files: Vec::new(),
        };
        proof {
            assert(job@.extra_files =~= Seq::<Seq<char>>::empty());
        }
        job
    }

    /// Add a new file into extra-files list; a duplicate path is ignored.
    pub fn attach_file(&mut self, file: String)
        ensures
            final(self)@ == (JobV {
                extra_files: if old(self)@.extra_files.contains(file@) {
                    old(self)@.extra_files
                } else {
                    old(self)@.extra_files.push(file@)
                },
                ..old(self)@
            }),
    {
        let found = contains_string(&self.extra_files, &file);
        if !found {
            let ghost prev = self@.extra_files;
            self.extra_files.push(file);
            proof {
                assert(self@.extra_files =~= prev.push(file@));
            }
        }
    }

    /// Return the job name.
    pub fn name(&self) -> (name: String)
        ensures
            name@ == self@.name,
    {
        self.name.clone()
    }

    /// Submit the job and turn it into a Computation bound to the freshly
    /// created working directory `wrk_dir`.
    pub fn submit(self, wrk_dir: String) -> (c: Computation)
        ensures
            c@.job == self@,
            c@.state == CompState::Created,
            c@.wrk_dir == wrk_dir@,
    {
        Computation::new(self, wrk_dir)
    }
}

/// Lifecycle state of a [`Computation`].
#[derive(Debug, Clone, Copy, PartialEq, Eq, Structural)]
pub enum CompState {
    /// Working directory and run script prepared; process not yet spawned.
    Created,
    /// Process spawned, streams being drained to files.
    Started,
    /// Process exited successfully.
    Completed,
    /// Spawn error, non-zero exit, or I/O error.
    Failed,
}

/// What the application observed when it tried to spawn a job's process.
#[derive(Debug, Clone, Copy, PartialEq, Eq, Structural)]
pub enum SpawnOutcome {
    /// The process is running.
    Spawned,
    /// The transient "text file busy" condition: the run script was still
    /// being flushed when it was executed.
    BusyFile,
    /// Any other spawn error.
    OtherError,
}

/// The mathematical value of a [`Computation`].
pub struct CompV {
    pub job: JobV,
    pub state: CompState,
    pub wrk_dir: Seq<char>,
}

/// Computation represents a submitted [`Job`]: the job bound to an ephemeral
/// working directory, with its lifecycle state.  The live process handle and
/// the directory itself are owned by the surrounding application; the library
/// tracks the state machine and the paths inside the directory.
#[derive(Debug)]
pub struct Computation {
    job: Job,
    state: CompState,
    wrk_dir: String,
}

/// A file name resolved under a directory.
pub open spec fn spec_join(dir: Seq<char>, file: Seq<char>) -> Seq<char> {
    dir + "/"@ + file
}

impl View for Computation {
    type V = CompV;

    closed spec fn view(&self) -> CompV {
        CompV { job: self.job@, state: self.state, wrk_dir: self.wrk_dir@ }
    }
}

impl Computation {
    /// Construct `Computation` of user inputted `Job`, bound to the given
    /// freshly created working directory.
    pub fn new(job: Job, wrk_dir: String) -> (c: Computation)
        ensures
            c@.job == job@,
            c@.state == CompState::Created,
            c@.wrk_dir == wrk_dir@,
    {
        Computation { job, state: CompState::Created, wrk_dir }
    }

    /// The full path to the working directory for running the job.
    pub fn wrk_dir(&self) -> (d: &str)
        ensures
            d@ == self@.wrk_dir,
    {
        self.wrk_dir.as_str()
    }

    /// A file name resolved under this computation's working directory.
    fn join(&self, file: &String) -> (p: String)
        ensures
            p@ == spec_join(self@.wrk_dir, file@),
    {
        let mut p = self.wrk_dir.clone();
        p.append("/");
        p.append(file.as_str());
        p
    }

    /// The full path to computation input file (stdin).
    pub fn inp_file(&self) -> (p: String)
        ensures
            p@ == spec_join(self@.wrk_dir, self@.job.inp_file),
    {
        self.join(&self.job.inp_file)
    }

    /// The full path to computation output file (stdout).
    pub fn out_file(&self) -> (p: String)
        ensures
            p@ == spec_join(self@.wrk_dir, self@.job.out_file),
    {
        self.join(&self.job.out_file)
    }

    /// The full path to computation error file (stderr).
    pub fn err_file(&self) -> (p: String)
        ensures
            p@ == spec_join(self@.wrk_dir, self@.job.err_file),
    {
        self.join(&self.job.err_file)
    }

    /// The full path to the script for running the job.
    pub fn run_file(&self) -> (p: String)
        ensures
            p@ == spec_join(self@.wrk_dir, self@.job.run_file),
    {
        self.join(&self.job.run_file)
    }

    /// Return a list of full path to extra files required for computation.
    pub fn extra_files(&self) -> (ps: Vec<String>)
        ensures
            ps@.map_values(|s: String| s@) == self@.job.extra_files.map_values(
                |f: Seq<char>| spec_join(self@.wrk_dir, f),
            ),
    {
        let mut ps: Vec<String> = Vec::new();
        let n = self.job.extra_files.len();
        for i in 0..n
            invariant
                n == self.job.extra_files@.len(),
                ps@.len() == i,
                forall|j: int|
                    0 <= j < i ==> #[trigger] ps@[j]@ == spec_join(
                        self@.wrk_dir,
                        self@.job.extra_files[j],
                    ),
        {
            let p = self.join(&self.job.extra_files[i]);
            ps.push(p);
        }
        proof {
            assert(ps@.map_values(|s: String| s@) =~= self@.job.extra_files.map_values(
                |f: Seq<char>| spec_join(self@.wrk_dir, f),
            ));
        }
        ps
    }

    /// The content of the run script, for the application to write into the
    /// run file.
    pub fn script(&self) -> (s: &str)
        ensures
            s@ == self@.job.script,
    {
        self.job.script.as_str()
    }

    /// The stdin payload, for the application to hand to the process.
    pub fn input(&self) -> (s: &str)
        ensures
            s@ == self@.job.input,
    {
        self.job.input.as_str()
    }

    /// The lifecycle state of this computation.
    pub fn state(&self) -> (s: CompState)
        ensures
            s == self@.state,
    {
        self.state
    }

    /// A relative file name resolved under this computation's working
    /// directory: where a client-supplied job file lives.
    pub fn file_path(&self, file: &String) -> (p: String)
        ensures
            p@ == spec_join(self@.wrk_dir, file@),
    {
        self.join(file)
    }

    /// Return true if session already has been started.
    pub fn is_started(&self) -> (r: bool)
        ensures
            r == (self@.state != CompState::Created),
    {
        match self.state {
            CompState::Created => false,
            _ => true,
        }
    }

    /// Record the outcome of spawning this computation's process: on success
    /// the computation is started; on failure nothing changes and the error
    /// surfaces.  A computation is never resurrected after a terminal state.
    pub fn start(&mut self, outcome: SpawnOutcome) -> (r: Result<(), Error>)
        requires
            old(self)@.state == CompState::Created || old(self)@.state == CompState::Started,
        ensures
            final(self)@.job == old(self)@.job,
            final(self)@.wrk_dir == old(self)@.wrk_dir,
            outcome == SpawnOutcome::Spawned ==> r is Ok && final(self)@.state
                == CompState::Started,
            outcome != SpawnOutcome::Spawned ==> r == Err::<(), Error>(Error::SpawnFailure)
                && final(self)@.state == old(self)@.state,
    {
        match outcome {
            SpawnOutcome::Spawned => {
                self.state = CompState::Started;
                Ok(())
            },
            _ => Err(Error::SpawnFailure),
        }
    }

    /// Record the exit of this computation's process.  Waiting on a
    /// computation that was never started fails; a successful exit completes
    /// the computation and an unsuccessful one fails it, either way a
    /// terminal state.
    pub fn wait(&mut self, exit_ok: bool) -> (r: Result<(), Error>)
        ensures
            final(self)@.job == old(self)@.job,
            final(self)@.wrk_dir == old(self)@.wrk_dir,
            old(self)@.state != CompState::Started ==> r == Err::<(), Error>(Error::NotStarted)
                && final(self)@.state == old(self)@.state,
            old(self)@.state == CompState::Started && exit_ok ==> r is Ok && final(self)@.state
                == CompState::Completed,
            old(self)@.state == CompState::Started && !exit_ok ==> r == Err::<(), Error>(
                Error::ProcessFailure,
            ) && final(self)@.state == CompState::Failed,
    {
        match self.state {
            CompState::Started => {
                if exit_ok {
                    self.state = CompState::Completed;
                    Ok(())
                } else {
                    self.state = CompState::Failed;
                    Err(Error::ProcessFailure)
                }
            },
            _ => Err(Error::NotStarted),
        }
    }

    /// Start computation and wait for it: the composed transitions of one
    /// run, from the spawn and exit outcomes the application observed.  The
    /// captured output is then read from the output file by the caller.
    pub fn run_for_output(&mut self, outcome: SpawnOutcome, exit_ok: bool) -> (r: Result<
        (),
        Error,
    >)
        requires
            old(self)@.state == CompState::Created || old(self)@.state == CompState::Started,
        ensures
            final(self)@.job == old(self)@.job,
            final(self)@.wrk_dir == old(self)@.wrk_dir,
            outcome != SpawnOutcome::Spawned ==> r == Err::<(), Error>(Error::SpawnFailure)
                && final(self)@.state == old(self)@.state,
            outcome == SpawnOutcome::Spawned && exit_ok ==> r is Ok && final(self)@.state
                == CompState::Completed,
            outcome == SpawnOutcome::Spawned && !exit_ok ==> r == Err::<(), Error>(
                Error::ProcessFailure,
            ) && final(self)@.state == CompState::Failed,
    {
        self.start(outcome)?;
        self.wait(exit_ok)?;
        Ok(())
    }

    /// Check if job has been done correctly, from what the caller observed on
    /// disk: the working directory exists, input and output files both exist,
    /// and the output file's modification time is not earlier than the input
    /// file's.  A best-effort heuristic to skip recomputation, not a
    /// correctness guarantee.
    pub fn is_done(&self, dir_exists: bool, inp_mtime: Option<u64>, out_mtime: Option<u64>) -> (r:
        bool)
        ensures
            r == (dir_exists && inp_mtime is Some && out_mtime is Some && out_mtime.unwrap()
                >= inp_mtime.unwrap()),
    {
        if dir_exists {
            if let Some(t1) = inp_mtime {
                if let Some(t2) = out_mtime {
                    return t2 >= t1;
                }
            }
        }
        false
    }
}

/// Retry policy for spawning: a spawn that failed on the transient "text
/// file busy" condition is retried exactly once, after a short pause; no
/// other failure is retried, and no third attempt is ever made.
pub fn should_retry_spawn(outcome: SpawnOutcome, attempts_made: u32) -> (r: bool)
    ensures
        r == (outcome == SpawnOutcome::BusyFile && attempts_made == 1),
{
    match outcome {
        SpawnOutcome::BusyFile => attempts_made == 1,
        _ => false,
    }
}

} // verus!
