//! One run over the queries: match, select, publish, feed.
//!
//! The caller walks the crawl root once, hands the files met to
//! `next_query`, carries out the returned plan (copy or convert, then change
//! the owner) and reports how that went to `record`, until `is_done`. The
//! feed then holds an entry for exactly the files that were published.

use vstd::prelude::*;

use crate::feed::{FeedBuilder, FeedWriteError, bytes_of, feed_document, link_of};
use crate::matcher::{Candidate, find, found};
use crate::publisher::{PublishPlan, method_for, plan_publish, published_name};
use crate::selector::{latest, select};

verus! {

/// Why a selected file could not be published.
#[derive(Debug, Clone, Copy, PartialEq, Eq, Structural)]
pub enum PublishError {
    /// The converter failed or left no output.
    Conversion,
    /// The copy failed.
    Copy,
    /// The owner of the published file could not be changed.
    Ownership,
}

/// What became of one query.
#[derive(Debug)]
pub enum Outcome {
    /// Published as `file_name` and added to the feed with `link`.
    Fed { file_name: String, link: String },
    /// No file answers the query.
    NoMatch,
    /// The selected file could not be published.
    PublishFailed(PublishError),
    /// The file was published but no link could be formed for it.
    LinkFailed,
}

/// A query with its outcome.
#[derive(Debug)]
pub struct QueryReport {
    pub query: String,
    pub outcome: Outcome,
}

/// The feed entries (title and link) that a list of reports accounts for.
pub open spec fn fed_entries(reports: Seq<QueryReport>) -> Seq<(Seq<char>, Seq<char>)>
    decreases reports.len(),
{
    if reports.len() == 0 {
        Seq::empty()
    } else {
        let before = fed_entries(reports.drop_last());
        match reports.last().outcome {
            Outcome::Fed { file_name, link } => before.push((file_name@, link@)),
            _ => before,
        }
    }
}

/// The state of a run.
pub struct Pipeline {
    queries: Vec<String>,
    feed: FeedBuilder,
    reports: Vec<QueryReport>,
    pending: Option<PublishPlan>,
}

impl Pipeline {
    /// The queries, in the order processed.
    pub closed spec fn queries(&self) -> Seq<String> {
        self.queries@
    }

    /// One report for each query processed so far.
    pub closed spec fn reports(&self) -> Seq<QueryReport> {
        self.reports@
    }

    /// The plan handed out and not yet reported on.
    pub closed spec fn pending(&self) -> Option<PublishPlan> {
        self.pending
    }

    /// The feed built so far.
    pub closed spec fn feed(&self) -> (Seq<char>, Seq<(Seq<char>, Seq<char>)>) {
        self.feed@
    }

    /// Reports follow the queries one for one, a plan is pending only for the
    /// next query, and the feed holds exactly the entries of the published
    /// files, in query order.
    pub closed spec fn wf(&self) -> bool {
        &&& self.reports@.len() <= self.queries@.len()
        &&& self.pending is Some ==> self.reports@.len() < self.queries@.len()
        &&& forall|i: int|
            0 <= i < self.reports@.len() ==> (#[trigger] self.reports@[i]).query@
                == self.queries@[i]@
        &&& self.feed@.1 == fed_entries(self.reports@)
    }

    /// A run over `queries` whose links are resolved against `url_root`.
    pub fn new(queries: Vec<String>, url_root: &str) -> (r: Pipeline)
        ensures
            r.wf(),
            r.queries() == queries@,
            r.reports().len() == 0,
            r.pending() is None,
            r.feed().0 == url_root@,
            r.feed().1.len() == 0,
    {
        Pipeline { queries, feed: FeedBuilder::new(url_root), reports: Vec::new(), pending: None }
    }

    /// Whether every query has its report.
    pub fn is_done(&self) -> (r: bool)
        requires
            self.wf(),
        ensures
            r == (self.reports().len() == self.queries().len()),
    {
        self.reports.len() == self.queries.len()
    }

    /// The reports so far, one for each query processed.
    pub fn reports_so_far(&self) -> (r: &Vec<QueryReport>)
        ensures
            r@ == self.reports(),
    {
        &self.reports
    }

    /// Matches the next query against the files met and selects the most
    /// recent answer. Where there is one, returns the plan for publishing it
    /// and waits for `record`; where there is none, reports `NoMatch` and
    /// moves on.
    pub fn next_query(&mut self, entries: &Vec<Candidate>) -> (r: Option<PublishPlan>)
        requires
            old(self).wf(),
            old(self).pending() is None,
            old(self).reports().len() < old(self).queries().len(),
        ensures
            final(self).wf(),
            final(self).queries() == old(self).queries(),
            final(self).feed() == old(self).feed(),
            final(self).pending() == r,
            ({
                let q = old(self).queries()[old(self).reports().len() as int];
                let f = found(entries@, q@);
                if f.len() == 0 {
                    &&& r is None
                    &&& final(self).reports().len() == old(self).reports().len() + 1
                    &&& final(self).reports().drop_last() == old(self).reports()
                    &&& final(self).reports().last().query@ == q@
                    &&& final(self).reports().last().outcome is NoMatch
                } else {
                    &&& r is Some
                    &&& r->Some_0.source@ == latest(f).path@
                    &&& r->Some_0.dest_name@ == published_name(latest(f).file_name@)
                    &&& r->Some_0.method == method_for(latest(f).file_name@)
                    &&& final(self).reports() == old(self).reports()
                }
            }),
    {
        let k = self.reports.len();
        let q = self.queries[k].clone();
        let candidates = find(entries, q.as_str());
        match select(&candidates) {
            Ok(chosen) => {
                let plan = plan_publish(&chosen);
                let handed = PublishPlan {
                    source: plan.source.clone(),
                    dest_name: plan.dest_name.clone(),
                    method: plan.method,
                };
                self.pending = Some(plan);
                Some(handed)
            },
            Err(_) => {
                self.reports.push(QueryReport { query: q, outcome: Outcome::NoMatch });
                proof {
                    assert(self.reports@.drop_last() =~= old(self).reports@);
                    assert(fed_entries(self.reports@) == fed_entries(old(self).reports@));
                }
                None
            },
        }
    }

    /// Takes the outcome of the pending plan. A published file gets its feed
    /// entry and is reported `Fed`, unless its link cannot be formed
    /// (`LinkFailed`); a failed one is reported with its error.
    pub fn record(&mut self, result: Result<(), PublishError>) -> (r: bool)
        requires
            old(self).wf(),
            old(self).pending() is Some,
        ensures
            final(self).wf(),
            final(self).queries() == old(self).queries(),
            final(self).pending() is None,
            final(self).feed().0 == old(self).feed().0,
            final(self).reports().len() == old(self).reports().len() + 1,
            final(self).reports().drop_last() == old(self).reports(),
            final(self).reports().last().query@ == old(self).queries()[old(
                self,
            ).reports().len() as int]@,
            ({
                let name = old(self).pending()->Some_0.dest_name@;
                match result {
                    Err(e) => {
                        &&& !r
                        &&& final(self).reports().last().outcome == Outcome::PublishFailed(e)
                        &&& final(self).feed() == old(self).feed()
                    },
                    Ok(_) => match link_of(old(self).feed().0, name) {
                        Some(link) => {
                            &&& r
                            &&& final(self).feed().1 == old(self).feed().1.push((name, link))
                            &&& match final(self).reports().last().outcome {
                                Outcome::Fed { file_name, link: l } => file_name@ == name && l@
                                    == link,
                                _ => false,
                            }
                        },
                        None => {
                            &&& !r
                            &&& final(self).reports().last().outcome is LinkFailed
                            &&& final(self).feed() == old(self).feed()
                        },
                    },
                }
            }),
    {
        let plan = self.pending.take().unwrap();
        let k = self.reports.len();
        let query = self.queries[k].clone();
        let (outcome, fed) = match result {
            Err(e) => (Outcome::PublishFailed(e), false),
            Ok(_) => match self.feed.add(plan.dest_name.as_str()) {
                Ok(link) => (Outcome::Fed { file_name: plan.dest_name, link }, true),
                Err(_) => (Outcome::LinkFailed, false),
            },
        };
        self.reports.push(QueryReport { query, outcome });
        proof {
            assert(self.reports@.drop_last() =~= old(self).reports@);
        }
        fed
    }

    /// The feed document of everything published in this run.
    pub fn feed_document(&self) -> (r: Result<Vec<u8>, FeedWriteError>)
        ensures
            bytes_of(r) == feed_document(self.feed()),
    {
        self.feed.serialize()
    }
}

/// At every step of a run, the feed holds one entry for each query reported
/// `Fed`, titled with the published file name, in query order, and no other.
pub proof fn lemma_feed_is_published(p: &Pipeline)
    requires
        p.wf(),
    ensures
        p.feed().1 == fed_entries(p.reports()),
{
}

} // verus!
