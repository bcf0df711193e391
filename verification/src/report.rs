//! Counting links by status.

use vstd::prelude::*;
use crate::model::{LinkStatus, Post, PostLink};
use crate::text::{decimal, to_decimal_unsigned};

verus! {

broadcast use vstd::string::group_string_axioms;

/// How many links there are, in all and by status.
#[derive(Debug, Clone, Copy, PartialEq, Eq, Structural)]
pub struct Report {
    pub total: usize,
    pub downloaded: usize,
    pub error: usize,
    pub pending: usize,
}

/// How many of the links have the status.
pub open spec fn tally(links: Seq<PostLink>, status: LinkStatus) -> nat
    decreases links.len(),
{
    if links.len() == 0 {
        0
    } else {
        tally(links.drop_last(), status) + if links.last().status == status {
            1nat
        } else {
            0nat
        }
    }
}

/// How many links of all posts have the status.
pub open spec fn count(posts: Seq<Post>, status: LinkStatus) -> nat
    decreases posts.len(),
{
    if posts.len() == 0 {
        0
    } else {
        count(posts.drop_last(), status) + tally(posts.last().links@, status)
    }
}

/// How many links all posts have.
pub open spec fn link_count(posts: Seq<Post>) -> nat
    decreases posts.len(),
{
    if posts.len() == 0 {
        0
    } else {
        link_count(posts.drop_last()) + posts.last().links@.len()
    }
}

/// Every link has exactly one of the three statuses.
pub proof fn lemma_tally_partition(links: Seq<PostLink>)
    ensures
        tally(links, LinkStatus::Downloaded) + tally(links, LinkStatus::Error) + tally(
            links,
            LinkStatus::Pending,
        ) == links.len(),
    decreases links.len(),
{
    if links.len() > 0 {
        lemma_tally_partition(links.drop_last());
    }
}

/// The three counts by status add up to the number of links.
pub proof fn lemma_count_partition(posts: Seq<Post>)
    ensures
        count(posts, LinkStatus::Downloaded) + count(posts, LinkStatus::Error) + count(
            posts,
            LinkStatus::Pending,
        ) == link_count(posts),
    decreases posts.len(),
{
    if posts.len() > 0 {
        lemma_count_partition(posts.drop_last());
        lemma_tally_partition(posts.last().links@);
    }
}

/// Counts the links of all posts, in all and by status.
pub fn summarize(posts: &Vec<Post>) -> (report: Report)
    requires
        link_count(posts@) <= usize::MAX,
    ensures
        report.total == link_count(posts@),
        report.downloaded == count(posts@, LinkStatus::Downloaded),
        report.error == count(posts@, LinkStatus::Error),
        report.pending == count(posts@, LinkStatus::Pending),
        report.total == report.downloaded + report.error + report.pending,
{
    let mut report = Report { total: 0, downloaded: 0, error: 0, pending: 0 };
    let mut p: usize = 0;
    while p < posts.len()
        invariant
            p <= posts.len(),
            link_count(posts@) <= usize::MAX,
            report.total == link_count(posts@.take(p as int)),
            report.downloaded == count(posts@.take(p as int), LinkStatus::Downloaded),
            report.error == count(posts@.take(p as int), LinkStatus::Error),
            report.pending == count(posts@.take(p as int), LinkStatus::Pending),
        decreases posts.len() - p,
    {
        let links = &posts[p].links;
        let ghost before = report;
        proof {
            assert(posts@.take(p + 1).drop_last() =~= posts@.take(p as int));
            lemma_link_count_grows(posts@, p + 1);
            lemma_count_partition(posts@.take(p + 1));
            lemma_count_partition(posts@.take(p as int));
        }
        let mut l: usize = 0;
        while l < links.len()
            invariant
                l <= links.len(),
                links == &posts@[p as int].links,
                before.total + links.len() <= usize::MAX,
                before.total == before.downloaded + before.error + before.pending,
                report.total == before.total + l,
                report.downloaded == before.downloaded + tally(
                    links@.take(l as int),
                    LinkStatus::Downloaded,
                ),
                report.error == before.error + tally(links@.take(l as int), LinkStatus::Error),
                report.pending == before.pending + tally(
                    links@.take(l as int),
                    LinkStatus::Pending,
                ),
            decreases links.len() - l,
        {
            proof {
                assert(links@.take(l + 1).drop_last() =~= links@.take(l as int));
                lemma_tally_partition(links@.take(l as int));
                lemma_tally_partition(links@.take(l + 1));
            }
            report.total = report.total + 1;
            match links[l].status {
                LinkStatus::Downloaded => {
                    report.downloaded = report.downloaded + 1;
                },
                LinkStatus::Error => {
                    report.error = report.error + 1;
                },
                LinkStatus::Pending => {
                    report.pending = report.pending + 1;
                },
            }
            l += 1;
        }
        assert(links@.take(links.len() as int) =~= links@);
        p += 1;
    }
    proof {
        assert(posts@.take(posts.len() as int) =~= posts@);
        lemma_count_partition(posts@);
    }
    report
}

/// The links of the first posts are no more than the links of all.
pub proof fn lemma_link_count_grows(posts: Seq<Post>, n: int)
    requires
        0 <= n <= posts.len(),
    ensures
        link_count(posts.take(n)) <= link_count(posts),
    decreases posts.len(),
{
    if n == posts.len() {
        assert(posts.take(n) =~= posts);
    } else {
        lemma_link_count_grows(posts.drop_last(), n);
        assert(posts.drop_last().take(n) =~= posts.take(n));
    }
}

/// The lines of the report, as they are printed.
pub open spec fn report_text(report: Report) -> Seq<Seq<char>> {
    seq![
        "Total links: "@ + decimal(report.total as int),
        "Downloaded links: "@ + decimal(report.downloaded as int),
        "Error links: "@ + decimal(report.error as int),
        "Pending links: "@ + decimal(report.pending as int),
    ]
}

fn count_text(n: usize) -> (text: String)
    ensures
        text@ == decimal(n as int),
{
    to_decimal_unsigned(n as u64)
}

/// Writes the report as the lines to print.
pub fn report_lines(report: &Report) -> (lines: Vec<String>)
    ensures
        lines.deep_view() == report_text(*report),
{
    let mut lines: Vec<String> = Vec::new();
    lines.push("Total links: ".to_owned().concat(count_text(report.total).as_str()));
    lines.push("Downloaded links: ".to_owned().concat(count_text(report.downloaded).as_str()));
    lines.push("Error links: ".to_owned().concat(count_text(report.error).as_str()));
    lines.push("Pending links: ".to_owned().concat(count_text(report.pending).as_str()));
    assert(lines.deep_view() =~= report_text(*report));
    lines
}

} // verus!
