//! The job hand-off between the pool session and the device loop, and the
//! decisions that the device loop takes on each batch.
//!
//! A `JobSlot` holds the job that is being mined together with a generation
//! number that changes on every publish and every clear; the device loop
//! compares generations to drop stale work.  Sharing the slot between the
//! session and the device thread (the lock around it) is the caller's.

use std::sync::Arc;
use vstd::prelude::*;

use crate::pow::{pow_words, Job};
use crate::uint256::Uint256;

verus! {

/// `Arc::clone`: a new pointer to the same allocation.  The documentation of
/// `Clone for Arc` states that the clone points to the same value; the
/// contract claims no more than that.
#[verifier::external_body]
fn arc_clone<T>(a: &Arc<T>) -> (r: Arc<T>)
    ensures
        r == *a,
{
    Arc::clone(a)
}

/// A job together with the generation under which it was published.
#[derive(Clone, Debug)]
pub struct PublishedJob {
    pub generation: u64,
    pub job: Arc<Job>,
}

impl PublishedJob {
    /// A second handle on the same published job.
    pub fn duplicate(&self) -> (r: Self)
        ensures
            r == *self,
    {
        PublishedJob { generation: self.generation, job: arc_clone(&self.job) }
    }
}

/// The current job and its generation.
pub struct JobSlot {
    generation: u64,
    inner: Option<PublishedJob>,
}

impl View for JobSlot {
    type V = (u64, Option<PublishedJob>);

    closed spec fn view(&self) -> (u64, Option<PublishedJob>) {
        (self.generation, self.inner)
    }
}

/// The slot after publishing `job`: the generation advances by one (modulo
/// 2^64) and the job is published under the new generation.
pub open spec fn published(slot: (u64, Option<PublishedJob>), job: Job) -> (
    u64,
    Option<PublishedJob>,
) {
    let g = slot.0.wrapping_add(1);
    (g, Some(PublishedJob { generation: g, job: Arc::new(job) }))
}

/// The slot after a clear: the generation advances and no job is published.
pub open spec fn cleared(slot: (u64, Option<PublishedJob>)) -> (u64, Option<PublishedJob>) {
    (slot.0.wrapping_add(1), None)
}

impl JobSlot {
    /// An empty slot at generation zero.
    pub fn new() -> (s: Self)
        ensures
            s@ == (0u64, None::<PublishedJob>),
    {
        JobSlot { generation: 0, inner: None }
    }

    /// Publishes a job under the next generation and returns that generation.
    pub fn publish(&mut self, job: Job) -> (generation: u64)
        ensures
            final(self)@ == published(old(self)@, job),
            generation == final(self)@.0,
    {
        let generation = self.generation.wrapping_add(1);
        self.generation = generation;
        self.inner = Some(PublishedJob { generation, job: Arc::new(job) });
        generation
    }

    /// Withdraws the current job; the generation still advances.
    pub fn clear(&mut self)
        ensures
            final(self)@ == cleared(old(self)@),
    {
        self.generation = self.generation.wrapping_add(1);
        self.inner = None;
    }

    /// The job that is published now, if any.
    pub fn snapshot(&self) -> (r: Option<PublishedJob>)
        ensures
            r == self@.1,
    {
        match &self.inner {
            Some(p) => Some(p.duplicate()),
            None => None,
        }
    }

    /// The generation now.
    pub fn current_generation(&self) -> (g: u64)
        ensures
            g == self@.0,
    {
        self.generation
    }
}

impl Default for JobSlot {
    fn default() -> (s: Self)
        ensures
            s@ == (0u64, None::<PublishedJob>),
    {
        JobSlot::new()
    }
}

/// Reading the slot after a publish gives back the job just published,
/// under the generation that the publish returned.
pub proof fn law_snapshot_after_publish(slot: (u64, Option<PublishedJob>), job: Job)
    ensures
        published(slot, job).1 matches Some(p) && *p.job == job && p.generation == published(
            slot,
            job,
        ).0,
{
}

/// Every publish and every clear changes the generation, so a reader that
/// holds the generation of its job sees that its job is stale.
pub proof fn law_generation_changes(slot: (u64, Option<PublishedJob>), job: Job)
    ensures
        published(slot, job).0 != slot.0,
        cleared(slot).0 != slot.0,
        cleared(slot).1 is None,
{
}

/// A nonce that the device reports for a job.
#[derive(Clone, Debug)]
pub struct FoundShare {
    pub generation: u64,
    pub job_id: String,
    pub nonce: u64,
}

/// What the device loop does after it has looked at the slot.
#[derive(Clone, Copy, Debug, PartialEq, Eq, Structural)]
pub enum SlotStep {
    /// A newer job was taken: load it on the device, then scan.
    Load,
    /// Nothing is published: wait (20 ms) and look again.
    NoJob,
    /// The slot has not changed but no job is loaded: wait (10 ms).
    Idle,
    /// Keep scanning the loaded job.
    Run,
}

/// The verdict on a nonce that the device reports.
#[derive(Clone, Debug)]
pub enum ShareCheck {
    /// Send this share to the pool; with the CPU check on, the PoW value
    /// that the CPU computed comes with it.
    Submit(FoundShare, Option<Uint256>),
    /// The CPU's PoW value is above the target; drop the nonce.
    Invalid(Uint256),
}

/// The state of the device loop: the generation it has loaded, the job it
/// scans, the counter of the next batch, and the hashes since the last
/// hash-rate report.
pub struct MinerLoop {
    pub loaded_generation: u64,
    pub current: Option<PublishedJob>,
    pub counter: u64,
    pub hashes_window: u64,
}

impl MinerLoop {
    /// The loop before it has seen any job; `counter` is a random start.
    pub fn new(counter: u64) -> (m: Self)
        ensures
            m.loaded_generation == 0,
            m.current is None,
            m.counter == counter,
            m.hashes_window == 0,
    {
        MinerLoop { loaded_generation: 0, current: None, counter, hashes_window: 0 }
    }

    /// Takes in what the slot holds now.  A job of another generation than
    /// the loaded one is taken, and the counter restarts at `fresh_counter`
    /// (a random value); an empty slot drops the loaded job.
    pub fn observe(&mut self, snapshot: Option<PublishedJob>, fresh_counter: u64) -> (step:
        SlotStep)
        ensures
            match snapshot {
                Some(p) => if p.generation != old(self).loaded_generation {
                    &&& step == SlotStep::Load
                    &&& final(self).loaded_generation == p.generation
                    &&& final(self).current == Some(p)
                    &&& final(self).counter == fresh_counter
                    &&& final(self).hashes_window == old(self).hashes_window
                } else {
                    &&& *final(self) == *old(self)
                    &&& step == if old(self).current is Some {
                        SlotStep::Run
                    } else {
                        SlotStep::Idle
                    }
                },
                None => {
                    &&& step == SlotStep::NoJob
                    &&& final(self).loaded_generation == 0
                    &&& final(self).current is None
                    &&& final(self).counter == old(self).counter
                    &&& final(self).hashes_window == old(self).hashes_window
                },
            },
    {
        match snapshot {
            Some(published) => {
                if published.generation != self.loaded_generation {
                    self.loaded_generation = published.generation;
                    self.current = Some(published);
                    self.counter = fresh_counter;
                    SlotStep::Load
                } else if self.current.is_some() {
                    SlotStep::Run
                } else {
                    SlotStep::Idle
                }
            },
            None => {
                self.current = None;
                self.loaded_generation = 0;
                SlotStep::NoJob
            },
        }
    }

    /// Whether the loaded job is stale: the slot's generation has moved on.
    pub fn is_stale(&self, current_generation: u64) -> (stale: bool)
        ensures
            stale <==> (self.current matches Some(p) && p.generation != current_generation),
    {
        match &self.current {
            Some(p) => p.generation != current_generation,
            None => false,
        }
    }

    /// Accounts for a finished batch of `done` hashes; the next batch starts
    /// at least one batch (`workload` nonces) further on.
    pub fn record_scan(&mut self, done: u64, workload: u64)
        ensures
            final(self).hashes_window == old(self).hashes_window.saturating_add(done),
            final(self).counter == old(self).counter.wrapping_add(
                if done > workload {
                    done
                } else {
                    workload
                },
            ),
            final(self).loaded_generation == old(self).loaded_generation,
            final(self).current == old(self).current,
    {
        self.hashes_window = self.hashes_window.saturating_add(done);
        let step = if done > workload {
            done
        } else {
            workload
        };
        self.counter = self.counter.wrapping_add(step);
    }

    /// Returns the hashes counted since the last call and starts a new window.
    pub fn take_hashes(&mut self) -> (n: u64)
        ensures
            n == old(self).hashes_window,
            final(self).hashes_window == 0,
            final(self).loaded_generation == old(self).loaded_generation,
            final(self).current == old(self).current,
            final(self).counter == old(self).counter,
    {
        let n = self.hashes_window;
        self.hashes_window = 0;
        n
    }
}

/// Whether a PoW value meets a target: it must not exceed it.
pub open spec fn meets_target(pow: Uint256, target: Uint256) -> bool {
    pow.value() <= target.value()
}

/// Decides what becomes of a nonce that the device found for a job.  With
/// the CPU check on, a nonce whose PoW value exceeds the target is dropped;
/// otherwise the share is submitted under the job's generation and id.
pub fn check_share(published: &PublishedJob, nonce: u64, cpu_verify: bool) -> (r: ShareCheck)
    ensures
        match r {
            ShareCheck::Submit(share, checked) => {
                &&& share.generation == published.generation
                &&& share.job_id@ == published.job.id@
                &&& share.nonce == nonce
                &&& (checked is Some <==> cpu_verify)
                &&& checked matches Some(pow) ==> pow.0@ == pow_words(
                    published.job.initial_state@,
                    published.job.matrix@,
                    nonce,
                ) && meets_target(pow, published.job.target)
            },
            ShareCheck::Invalid(pow) => {
                &&& cpu_verify
                &&& pow.0@ == pow_words(published.job.initial_state@, published.job.matrix@, nonce)
                &&& !meets_target(pow, published.job.target)
            },
        },
{
    let checked = if cpu_verify {
        let pow = published.job.calculate_pow(nonce);
        proof {
            crate::order::law_order_is_numeric(pow, published.job.target);
        }
        if pow > published.job.target {
            return ShareCheck::Invalid(pow);
        }
        Some(pow)
    } else {
        None
    };
    ShareCheck::Submit(
        FoundShare { generation: published.generation, job_id: published.job.id.clone(), nonce },
        checked,
    )
}

} // verus!
