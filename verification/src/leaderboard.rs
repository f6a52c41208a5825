//! Leaderboard assembly: given the score lookup results for a community's
//! registered identifiers, order them descending by score, truncate to the
//! top fifteen, and render each survivor as a display field.
//!
//! The score lookups themselves are network calls and are performed by the
//! caller, which hands the results in as plain values.  A score is carried
//! as a totally ordered integer key (larger means better; the caller encodes
//! its floating-point score monotonically, with a non-comparable score at
//! the minimum) together with the text it is displayed as.

use vstd::prelude::*;
use vstd::seq_lib::group_to_multiset_ensures;

use crate::registry::id_views;
use crate::render::{render_field_title, render_field_value, spec_field_title, spec_field_value};

verus! {

broadcast use group_to_multiset_ensures;

/// A successfully fetched score for one registered identifier.
pub struct ScoreEntry {
    /// The identifier the score belongs to.
    pub external_id: String,
    /// A totally ordered encoding of the score; larger is better.
    pub score_key: u64,
    /// The text the score is displayed as.
    pub score_text: String,
}

/// The result of one score lookup, as the caller hands it in.
pub enum ScoreLookup {
    /// The ranking service returned a score for the identifier.
    Found(ScoreEntry),
    /// The lookup for this identifier failed; the entry is surfaced as a
    /// partial failure instead of aborting the build.
    Failed(String),
}

/// One rendered leaderboard line.
pub struct RankedField {
    /// `#<rank> <identifier>`.
    pub title: String,
    /// `score: <text>`.
    pub value: String,
}

/// The assembled leaderboard, ready for display.
pub struct LeaderboardView {
    /// The heading of the view.
    pub title: String,
    /// The line under the heading.
    pub description: String,
    /// Whether the community has no registered users at all.
    pub empty: bool,
    /// The rendered top entries, best score first.
    pub entries: Vec<RankedField>,
    /// The identifiers whose lookup failed, in fetch order.
    pub failed: Vec<String>,
}

/// The entries of the lookups that succeeded, in fetch order.
pub open spec fn spec_found(s: Seq<ScoreLookup>) -> Seq<ScoreEntry>
    decreases s.len(),
{
    if s.len() == 0 {
        Seq::empty()
    } else {
        let rest = spec_found(s.drop_first());
        match s.first() {
            ScoreLookup::Found(e) => seq![e] + rest,
            ScoreLookup::Failed(_) => rest,
        }
    }
}

/// The identifiers of the lookups that failed, in fetch order.
pub open spec fn spec_failed(s: Seq<ScoreLookup>) -> Seq<Seq<char>>
    decreases s.len(),
{
    if s.len() == 0 {
        Seq::empty()
    } else {
        let rest = spec_failed(s.drop_first());
        match s.first() {
            ScoreLookup::Found(_) => rest,
            ScoreLookup::Failed(id) => seq![id@] + rest,
        }
    }
}

/// Scores never increase along the sequence.
pub open spec fn sorted_desc(s: Seq<ScoreEntry>) -> bool {
    forall|i: int, j: int| 0 <= i < j < s.len() ==> s[i].score_key >= s[j].score_key
}

/// How many entries the rendered leaderboard keeps: all of them, up to
/// fifteen.
pub open spec fn top_len(fetched: nat) -> nat {
    if fetched < 15 {
        fetched
    } else {
        15
    }
}

/// Splits the lookup results into the fetched entries and the failed
/// identifiers, each in fetch order.
pub fn split_lookups(lookups: Vec<ScoreLookup>) -> (r: (Vec<ScoreEntry>, Vec<String>))
    ensures
        r.0@ == spec_found(lookups@),
        id_views(r.1@) == spec_failed(lookups@),
{
    let ghost orig = lookups@;
    let mut rest = lookups;
    let mut found: Vec<ScoreEntry> = Vec::new();
    let mut failed: Vec<String> = Vec::new();
    while rest.len() > 0
        invariant
            spec_found(orig) =~= found@ + spec_found(rest@),
            spec_failed(orig) =~= id_views(failed@) + spec_failed(rest@),
        decreases rest@.len(),
    {
        let ghost before = rest@;
        let item = rest.remove(0);
        proof {
            assert(rest@ =~= before.drop_first());
            assert(before.first() == item);
        }
        match item {
            ScoreLookup::Found(e) => {
                let ghost found_before = found@;
                found.push(e);
                proof {
                    assert(found@ + spec_found(rest@) =~= found_before + (seq![e] + spec_found(
                        rest@,
                    )));
                }
            },
            ScoreLookup::Failed(id) => {
                let ghost failed_before = failed@;
                failed.push(id);
                proof {
                    assert(id_views(failed@) =~= id_views(failed_before).push(id@));
                    assert(id_views(failed@) + spec_failed(rest@) =~= id_views(failed_before) + (
                    seq![id@] + spec_failed(rest@)));
                }
            },
        }
    }
    proof {
        assert(found@ + spec_found(rest@) =~= found@);
        assert(id_views(failed@) + spec_failed(rest@) =~= id_views(failed@));
    }
    (found, failed)
}

/// Sorts the entries descending by score key.  Entries with equal keys keep
/// their fetch order.
pub fn sort_desc(entries: Vec<ScoreEntry>) -> (r: Vec<ScoreEntry>)
    ensures
        sorted_desc(r@),
        r@.to_multiset() == entries@.to_multiset(),
        r@.len() == entries@.len(),
{
    let ghost orig = entries@;
    let mut rest = entries;
    let mut out: Vec<ScoreEntry> = Vec::new();
    while rest.len() > 0
        invariant
            sorted_desc(out@),
            out@.to_multiset().add(rest@.to_multiset()) =~= orig.to_multiset(),
            out@.len() + rest@.len() == orig.len(),
        decreases rest@.len(),
    {
        let ghost rest_before = rest@;
        let ghost out_before = out@;
        let item = rest.remove(0);
        proof {
            assert(rest_before.contains(item));
            assert(rest@ == rest_before.remove(0));
            assert(rest_before.remove(0).to_multiset() == rest_before.to_multiset().remove(
                rest_before[0],
            ));
        }
        let mut pos: usize = 0;
        while pos < out.len() && out[pos].score_key >= item.score_key
            invariant
                pos <= out@.len(),
                out@ == out_before,
                forall|k: int| 0 <= k < pos ==> out@[k].score_key >= item.score_key,
            decreases out@.len() - pos,
        {
            pos = pos + 1;
        }
        proof {
            out_before.insert_ensures(pos as int, item);
        }
        out.insert(pos, item);
        proof {
            assert(out@ == out_before.insert(pos as int, item));
            assert(out_before.insert(pos as int, item).to_multiset() == out_before.to_multiset()
                .insert(item));
            assert forall|i: int, j: int| 0 <= i < j < out@.len() implies out@[i].score_key
                >= out@[j].score_key by {
                if j < pos {
                } else if i > pos {
                } else if i == pos && j > pos {
                    assert(out@[j] == out_before[j - 1]);
                    assert(out_before[pos as int].score_key < item.score_key);
                } else if j == pos && i < pos {
                } else if i < pos && j > pos {
                    assert(out@[j] == out_before[j - 1]);
                }
            }
            assert(out@.to_multiset().add(rest@.to_multiset()) =~= orig.to_multiset());
        }
    }
    proof {
        assert(rest@.to_multiset().len() == 0);
        assert(out@.to_multiset() =~= out@.to_multiset().add(rest@.to_multiset()));
    }
    out
}

/// Orders the fetched entries descending by score and keeps the top
/// fifteen: the result is a prefix of a descending reordering of the input.
pub fn rank_entries(entries: Vec<ScoreEntry>) -> (r: Vec<ScoreEntry>)
    ensures
        sorted_desc(r@),
        r@.len() == top_len(entries@.len() as nat),
        exists|full: Seq<ScoreEntry>|
            {
                &&& #[trigger] full.to_multiset() == entries@.to_multiset()
                &&& sorted_desc(full)
                &&& r@ == full.take(top_len(entries@.len() as nat) as int)
            },
{
    let ghost input = entries@;
    let mut sorted = sort_desc(entries);
    let ghost full = sorted@;
    sorted.truncate(15);
    proof {
        assert(sorted@ =~= full.take(top_len(input.len() as nat) as int));
        assert(full.to_multiset() == input.to_multiset());
    }
    sorted
}

/// Renders the ranked entries as display fields, best first, with one-based
/// rank labels.
pub fn render_entries(ranked: &Vec<ScoreEntry>) -> (r: Vec<RankedField>)
    ensures
        r@.len() == ranked@.len(),
        forall|i: int|
            0 <= i < r@.len() ==> (#[trigger] r@[i]).title@ == spec_field_title(
                (i + 1) as nat,
                ranked@[i].external_id@,
            ) && r@[i].value@ == spec_field_value(ranked@[i].score_text@),
{
    let mut fields: Vec<RankedField> = Vec::new();
    let mut i: usize = 0;
    while i < ranked.len()
        invariant
            i <= ranked@.len(),
            fields@.len() == i,
            forall|k: int|
                0 <= k < i ==> (#[trigger] fields@[k]).title@ == spec_field_title(
                    (k + 1) as nat,
                    ranked@[k].external_id@,
                ) && fields@[k].value@ == spec_field_value(ranked@[k].score_text@),
        decreases ranked@.len() - i,
    {
        let rank = (i + 1) as u64;
        let title = render_field_title(rank, &ranked[i].external_id);
        let value = render_field_value(&ranked[i].score_text);
        fields.push(RankedField { title, value });
        i = i + 1;
    }
    fields
}

/// The heading of every assembled leaderboard.
pub open spec fn spec_leaderboard_title() -> Seq<char> {
    "osu! Leaderboard"@
}

/// The line under the heading.
pub open spec fn spec_leaderboard_description() -> Seq<char> {
    "Ranking of registered players"@
}

/// The display fields are the prefix of `full`, rendered in order with
/// one-based rank labels.
pub open spec fn rendered_from(full: Seq<ScoreEntry>, fields: Seq<RankedField>) -> bool {
    &&& fields.len() <= full.len()
    &&& forall|i: int|
        0 <= i < fields.len() ==> (#[trigger] fields[i]).title@ == spec_field_title(
            (i + 1) as nat,
            full[i].external_id@,
        ) && fields[i].value@ == spec_field_value(full[i].score_text@)
}

/// What `build` owes: the exact heading texts, the empty flag, the failed
/// identifiers in fetch order, and the top entries rendered from a
/// descending reordering of the fetched scores.
pub open spec fn spec_build(lookups: Seq<ScoreLookup>, v: LeaderboardView) -> bool {
    &&& v.title@ == spec_leaderboard_title()
    &&& v.description@ == spec_leaderboard_description()
    &&& v.empty == (lookups.len() == 0)
    &&& id_views(v.failed@) == spec_failed(lookups)
    &&& v.entries@.len() == top_len(spec_found(lookups).len())
    &&& exists|full: Seq<ScoreEntry>|
        {
            &&& #[trigger] full.to_multiset() == spec_found(lookups).to_multiset()
            &&& sorted_desc(full)
            &&& rendered_from(full, v.entries@)
        }
}

/// Assembles the leaderboard for a community from its score lookup results,
/// one per registered identifier.  A failed lookup is surfaced among
/// `failed`, never an error; no registrations at all yield a view flagged
/// empty, never an error.
pub fn build(lookups: Vec<ScoreLookup>) -> (r: LeaderboardView)
    ensures
        spec_build(lookups@, r),
{
    let ghost looks = lookups@;
    let empty = lookups.len() == 0;
    let (found, failed) = split_lookups(lookups);
    let ghost found_seq = found@;
    let ranked = rank_entries(found);
    let entries = render_entries(&ranked);
    let v = LeaderboardView {
        title: String::from_str("osu! Leaderboard"),
        description: String::from_str("Ranking of registered players"),
        empty,
        entries,
        failed,
    };
    proof {
        let full = choose|full: Seq<ScoreEntry>|
            {
                &&& #[trigger] full.to_multiset() == found_seq.to_multiset()
                &&& sorted_desc(full)
                &&& ranked@ == full.take(top_len(found_seq.len() as nat) as int)
            };
        assert(full.to_multiset().len() == found_seq.to_multiset().len());
        assert(full.len() == found_seq.len());
        assert(rendered_from(full, v.entries@));
        assert(full.to_multiset() == spec_found(looks).to_multiset() && sorted_desc(full)
            && rendered_from(full, v.entries@));
    }
    v
}

/// Law: a community with zero registrations gets a view flagged empty, with
/// no entries and no failures — and `build` is total, so never an error.
pub proof fn lemma_empty_build(lookups: Seq<ScoreLookup>, v: LeaderboardView)
    requires
        spec_build(lookups, v),
        lookups.len() == 0,
    ensures
        v.empty,
        v.entries@.len() == 0,
        v.failed@.len() == 0,
{
    assert(id_views(v.failed@).len() == 0);
}

/// A fetched entry comes from some lookup: `spec_found` invents nothing.
proof fn lemma_found_source(s: Seq<ScoreLookup>, e: ScoreEntry)
    requires
        spec_found(s).contains(e),
    ensures
        exists|j: int| 0 <= j < s.len() && s[j] == ScoreLookup::Found(e),
    decreases s.len(),
{
    if s.len() > 0 {
        let rest = spec_found(s.drop_first());
        match s.first() {
            ScoreLookup::Found(f) => {
                if e == f {
                    assert(s[0] == ScoreLookup::Found(e));
                } else {
                    assert(rest.contains(e)) by {
                        let w = choose|w: int|
                            0 <= w < spec_found(s).len() && spec_found(s)[w] == e;
                        assert(spec_found(s)[w] == rest[w - 1]);
                    }
                    lemma_found_source(s.drop_first(), e);
                    let j = choose|j: int|
                        0 <= j < s.drop_first().len() && s.drop_first()[j] == ScoreLookup::Found(
                            e,
                        );
                    assert(s[j + 1] == ScoreLookup::Found(e));
                }
            },
            ScoreLookup::Failed(_) => {
                lemma_found_source(s.drop_first(), e);
                let j = choose|j: int|
                    0 <= j < s.drop_first().len() && s.drop_first()[j] == ScoreLookup::Found(e);
                assert(s[j + 1] == ScoreLookup::Found(e));
            },
        }
    }
}

/// Law: the rendered leaderboard holds at most fifteen entries, ordered
/// descending by score, and every entry is drawn from the fetched scores of
/// the community's registered identifiers: each one renders an entry some
/// lookup returned.
pub proof fn lemma_leaderboard_shape(lookups: Seq<ScoreLookup>, v: LeaderboardView)
    requires
        spec_build(lookups, v),
    ensures
        v.entries@.len() <= 15,
        exists|full: Seq<ScoreEntry>|
            {
                &&& sorted_desc(full)
                &&& #[trigger] rendered_from(full, v.entries@)
                &&& forall|i: int|
                    0 <= i < v.entries@.len() ==> exists|j: int|
                        0 <= j < lookups.len() && #[trigger] lookups[j] == ScoreLookup::Found(
                            #[trigger] full[i],
                        )
            },
{
    let found = spec_found(lookups);
    let full = choose|full: Seq<ScoreEntry>|
        {
            &&& #[trigger] full.to_multiset() == found.to_multiset()
            &&& sorted_desc(full)
            &&& rendered_from(full, v.entries@)
        };
    assert forall|i: int| 0 <= i < v.entries@.len() implies exists|j: int|
        0 <= j < lookups.len() && #[trigger] lookups[j] == ScoreLookup::Found(
            #[trigger] full[i],
        ) by {
        assert(full.contains(full[i]));
        assert(full.to_multiset().count(full[i]) > 0);
        assert(found.contains(full[i]));
        lemma_found_source(lookups, full[i]);
    }
    assert(sorted_desc(full) && rendered_from(full, v.entries@) && (forall|i: int|
        0 <= i < v.entries@.len() ==> exists|j: int|
            0 <= j < lookups.len() && #[trigger] lookups[j] == ScoreLookup::Found(
                #[trigger] full[i],
            )));
}

} // verus!
