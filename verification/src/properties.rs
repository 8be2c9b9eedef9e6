//! Properties that hold across operations: what a search finds after an
//! ingestion or a deletion, which hits a search drops as vanished, how
//! channel normalisation settles, which overrides win and what an env file
//! sets, what boolean queries answer and exclude, how analysis keeps
//! repeated terms, and which Markdown lines add text.

use vstd::prelude::*;
use crate::boolean_query::{combined, has_operator, in_every_must, in_some, Operator};
use crate::config::{apply_env_entry, env_applied, env_line_entry, normalized, settled, without_repeats, CliArgs, ConfigView, DistributionChannel};
use crate::analyzer::{analysis, filter_and_stem, english_stem_of};
use crate::parser::{markdown_lines, bold_replaced};
use crate::text::{is_first_index, is_whitespace_char, split_on, strip_both, strip_end, strip_start, trim_end, trim_start, trimmed};
use crate::engine::{dropped_candidates, ingested, kept_candidates, kind_of_path, search_outcome, vanished_flags};
use crate::index::{lemma_first_with_path, DocumentSourceKind, InvertedIndex, Posting};
use crate::searcher::{conjunctive_hits, lists_paths_of};
use crate::query_pipeline::residue_count;

verus! {

/// A document just ingested is found by every non-empty query whose terms
/// it all holds, under the path it was ingested from; unless its id was
/// marked deleted before it was given out.
pub proof fn ingested_document_is_found(
    pre: InvertedIndex,
    post: InvertedIndex,
    path: Seq<char>,
    kind: DocumentSourceKind,
    terms: Seq<Seq<char>>,
    query: Seq<Seq<char>>,
)
    requires
        pre.wf(),
        ingested(pre, post, path, kind, terms),
        !pre.deleted().contains(pre.next_id()),
        query.len() > 0,
        forall|k: int| 0 <= k < query.len() ==> terms.contains(#[trigger] query[k]),
    ensures
        conjunctive_hits(post, query).contains(pre.next_id()),
        post.paths()[pre.next_id()] == path,
{
    let id = pre.next_id();
    assert forall|k: int| 0 <= k < query.len() implies #[trigger] post.docs_with_term(query[k]).contains(id) by {
        let t = query[k];
        assert(terms.contains(t));
        let ps = post.postings_for(t);
        assert(ps == pre.postings_for(t).push(Posting { document_id: id, frequency: crate::index::occurrences(terms, t) as usize }));
        assert(ps[ps.len() - 1].document_id == id);
    }
    assert(post.paths().contains_key(id));
}

proof fn lemma_kept_contains(cands: Seq<Seq<char>>, missing: Seq<bool>, k: int)
    requires
        0 <= k < cands.len(),
        missing.len() >= cands.len(),
        !missing[k],
    ensures
        kept_candidates(cands, missing).contains(cands[k]),
    decreases cands.len(),
{
    let prev = kept_candidates(cands.drop_last(), missing);
    if k == cands.len() - 1 {
        assert(prev.push(cands.last())[prev.len() as int] == cands[k]);
    } else {
        lemma_kept_contains(cands.drop_last(), missing, k);
        let j = choose|j: int| 0 <= j < prev.len() && prev[j] == cands[k];
        if !missing[cands.len() - 1] {
            assert(prev.push(cands.last())[j] == cands[k]);
        }
    }
}

/// A document indexed from a source no other document was registered
/// under, and not from the file system, is in the answer of every search
/// whose (non-empty) analyzed query terms it all holds; unless its id was
/// marked deleted before it was given out.
pub proof fn indexed_document_is_returned_by_search(
    pre: InvertedIndex,
    mid: InvertedIndex,
    post: InvertedIndex,
    source: Seq<char>,
    kind: DocumentSourceKind,
    terms: Seq<Seq<char>>,
    query: Seq<char>,
    answer: Seq<Seq<char>>,
)
    requires
        pre.wf(),
        ingested(pre, mid, source, kind, terms),
        kind != DocumentSourceKind::Filesystem,
        !pre.deleted().contains(pre.next_id()),
        forall|j: usize| #[trigger] pre.paths().contains_key(j) ==> pre.paths()[j] != source,
        analysis(query).len() > 0,
        forall|k: int| 0 <= k < analysis(query).len() ==> terms.contains(#[trigger] analysis(query)[k]),
        search_outcome(mid, post, query, answer),
    ensures
        answer.contains(source),
{
    let id = pre.next_id();
    let q = analysis(query);
    ingested_document_is_found(pre, mid, source, kind, terms, q);
    let (cands, exists) = choose|cands: Seq<Seq<char>>, exists: Seq<bool>| {
        &&& lists_paths_of(mid, conjunctive_hits(mid, analysis(query)), cands)
        &&& exists.len() == cands.len()
        &&& answer == kept_candidates(cands, vanished_flags(mid, cands, exists))
        &&& InvertedIndex::removed(mid, post, crate::engine::ids_removed_by_paths(mid.paths(),
            crate::engine::dropped_candidates(cands, vanished_flags(mid, cands, exists))))
    };
    let missing = vanished_flags(mid, cands, exists);
    let ids = choose|ids: Seq<usize>| {
        &&& ids.no_duplicates()
        &&& ids.to_set() == conjunctive_hits(mid, q)
        &&& cands == ids.map_values(|i: usize| mid.paths()[i])
    };
    assert(ids.to_set().contains(id));
    let k = choose|k: int| 0 <= k < ids.len() && ids[k] == id;
    assert(cands[k] == source);
    assert forall|j: usize| j < id && #[trigger] mid.paths().contains_key(j) implies mid.paths()[j] != source by {
        assert(pre.paths().contains_key(j));
    }
    lemma_first_with_path(mid.paths(), source, id);
    assert(kind_of_path(mid, source) == kind);
    lemma_kept_contains(cands, missing, k);
}

/// A deleted document is found by no query.
pub proof fn removed_documents_are_not_found(
    pre: InvertedIndex,
    post: InvertedIndex,
    ids: Set<usize>,
    query: Seq<Seq<char>>,
    id: usize,
)
    requires
        InvertedIndex::removed(pre, post, ids),
        ids.contains(id),
    ensures
        !conjunctive_hits(post, query).contains(id),
        !post.paths().contains_key(id),
{
}

proof fn lemma_without_repeats_contains(s: Seq<DistributionChannel>, c: DistributionChannel)
    ensures
        without_repeats(s).contains(c) == s.contains(c),
    decreases s.len(),
{
    if s.len() > 0 {
        lemma_without_repeats_contains(s.drop_last(), c);
        let prev = without_repeats(s.drop_last());
        if s.drop_last().contains(c) {
            let k = choose|k: int| 0 <= k < s.drop_last().len() && s.drop_last()[k] == c;
            assert(s[k] == c);
        }
        if s.contains(c) && c != s.last() {
            let k = choose|k: int| 0 <= k < s.len() && s[k] == c;
            assert(s.drop_last()[k] == c);
        }
        if !prev.contains(s.last()) {
            assert(prev.push(s.last())[prev.len() as int] == s.last());
            if prev.contains(c) {
                let k = choose|k: int| 0 <= k < prev.len() && prev[k] == c;
                assert(prev.push(s.last())[k] == c);
            }
            if prev.push(s.last()).contains(c) && c != s.last() {
                let k = choose|k: int| 0 <= k < prev.push(s.last()).len() && prev.push(s.last())[k] == c;
                assert(prev[k] == c);
            }
        } else {
            assert(s.last() == s[s.len() - 1]);
        }
    }
}

proof fn lemma_without_repeats_unique(s: Seq<DistributionChannel>)
    ensures
        without_repeats(s).no_duplicates(),
    decreases s.len(),
{
    if s.len() > 0 {
        lemma_without_repeats_unique(s.drop_last());
    }
}

proof fn lemma_without_repeats_of_unique(s: Seq<DistributionChannel>)
    requires
        s.no_duplicates(),
    ensures
        without_repeats(s) == s,
    decreases s.len(),
{
    if s.len() > 0 {
        assert(s.drop_last().no_duplicates());
        lemma_without_repeats_of_unique(s.drop_last());
        assert(!s.drop_last().contains(s.last())) by {
            if s.drop_last().contains(s.last()) {
                let k = choose|k: int| 0 <= k < s.drop_last().len() && s.drop_last()[k] == s.last();
                assert(s[k] == s[s.len() - 1]);
            }
        }
        assert(s.drop_last().push(s.last()) =~= s);
    }
}

/// Normalised channels are never empty, hold no channel twice, keep every
/// channel given, and normalising again changes nothing.
pub proof fn normalization_settles(channels: Seq<DistributionChannel>)
    ensures
        normalized(channels).len() > 0,
        normalized(channels).no_duplicates(),
        forall|c: DistributionChannel| #[trigger] channels.contains(c) ==> normalized(channels).contains(c),
        normalized(normalized(channels)) == normalized(channels),
{
    let given = if channels.len() == 0 { seq![DistributionChannel::Tcp] } else { channels };
    lemma_without_repeats_unique(given);
    assert(given.contains(given[0]));
    lemma_without_repeats_contains(given, given[0]);
    assert forall|c: DistributionChannel| #[trigger] channels.contains(c) implies normalized(channels).contains(c) by {
        lemma_without_repeats_contains(given, c);
    }
    lemma_without_repeats_of_unique(normalized(channels));
}

/// An option given on the command line wins over the configuration file
/// and the env file.
pub proof fn command_line_wins(c: ConfigView, cli: CliArgs, path: Seq<char>, env: Option<Seq<char>>)
    ensures
        cli.host matches Some(h) ==> settled(c, cli, path, env).host == h@,
        cli.port matches Some(p) ==> settled(c, cli, path, env).port == p,
        cli.protocol matches Some(p) ==> settled(c, cli, path, env).protocol == p,
        cli.db_path matches Some(d) ==> settled(c, cli, path, env).db_path == d@,
        cli.query matches Some(q) ==> settled(c, cli, path, env).query == Some(q@),
        settled(c, cli, path, env).config_path == path,
        cli.distribution@.len() > 0 ==> settled(c, cli, path, env).channels == normalized(cli.distribution@),
{
}

/// No document of a `MustNot` clause's set answers the query.
pub proof fn must_not_excludes(ops: Seq<Operator>, sets: Seq<Set<u32>>, k: int, d: u32)
    requires
        0 <= k < ops.len(),
        ops[k] == Operator::MustNot,
        sets[k].contains(d),
    ensures
        !combined(ops, sets).contains(d),
{
    assert(in_some(ops, sets, Operator::MustNot, ops.len() as int, d));
}

/// A query with a term that no document holds finds nothing.
pub proof fn unknown_term_finds_nothing(index: InvertedIndex, query: Seq<Seq<char>>, k: int)
    requires
        0 <= k < query.len(),
        index.postings_for(query[k]).len() == 0,
    ensures
        conjunctive_hits(index, query) == Set::<usize>::empty(),
{
    assert forall|id: usize| !conjunctive_hits(index, query).contains(id) by {
        if conjunctive_hits(index, query).contains(id) {
            assert(index.docs_with_term(query[k]).contains(id));
        }
    }
    assert(conjunctive_hits(index, query) =~= Set::<usize>::empty());
}

/// Ingestion gives out an id that no registered document has, and never
/// the same id twice.
pub proof fn ingestion_never_reuses_ids(
    pre: InvertedIndex,
    post: InvertedIndex,
    path: Seq<char>,
    kind: DocumentSourceKind,
    terms: Seq<Seq<char>>,
)
    requires
        pre.wf(),
        ingested(pre, post, path, kind, terms),
    ensures
        !pre.paths().contains_key(pre.next_id()),
        post.next_id() > pre.next_id(),
        forall|id: usize| #[trigger] post.paths().contains_key(id) ==> id < post.next_id(),
{
    assert(!pre.document_registry@.contains_key(pre.next_id()));
    assert forall|id: usize| #[trigger] post.paths().contains_key(id) implies id < post.next_id() by {
        if id != pre.next_id() {
            assert(pre.paths().contains_key(id));
            assert(pre.document_registry@.contains_key(id));
        }
    }
}

/// Partition counts only name partitions that exist.
pub proof fn partitions_are_in_range(ids: Seq<usize>, n: nat, r: usize)
    requires
        n > 0,
        residue_count(ids, n, r) > 0,
    ensures
        r < n,
    decreases ids.len(),
{
    if ids.len() > 0 && residue_count(ids.drop_last(), n, r) > 0 {
        partitions_are_in_range(ids.drop_last(), n, r);
    }
}

/// One operation of a run on an index: a registration that gave out `id`
/// (`Some(id)`), or any other operation, which leaves the id counter alone.
/// `register_document`, `add_document` and `delete_document` each promise
/// such a step.
pub open spec fn counter_step(pre: InvertedIndex, post: InvertedIndex, returned: Option<usize>) -> bool {
    match returned {
        Some(id) => id == pre.next_id() && post.next_id() == pre.next_id() + 1,
        None => post.next_id() == pre.next_id(),
    }
}

/// How many of the first `k` operations were registrations.
pub open spec fn registrations_before(returned: Seq<Option<usize>>, k: int) -> nat
    decreases k,
{
    if k <= 0 {
        0
    } else {
        registrations_before(returned, k - 1) + if returned[k - 1] is Some { 1nat } else { 0nat }
    }
}

proof fn lemma_counter_counts(states: Seq<InvertedIndex>, returned: Seq<Option<usize>>, k: int)
    requires
        states.len() == returned.len() + 1,
        states[0].next_id() == 0,
        forall|j: int| 0 <= j < returned.len() ==> #[trigger] counter_step(states[j], states[j + 1], returned[j]),
        0 <= k < states.len(),
    ensures
        states[k].next_id() == registrations_before(returned, k),
    decreases k,
{
    if k > 0 {
        let j = k - 1;
        lemma_counter_counts(states, returned, j);
        assert(counter_step(states[j], states[j + 1], returned[j]));
    }
}

proof fn lemma_registrations_grow(returned: Seq<Option<usize>>, j: int, k: int)
    requires
        0 <= j < k <= returned.len(),
        returned[j] is Some,
    ensures
        registrations_before(returned, j) < registrations_before(returned, k),
    decreases k - j,
{
    if k > j + 1 {
        lemma_registrations_grow(returned, j, k - 1);
    }
}

/// In a run of operations on an index made by `InvertedIndex::new`, the
/// registrations give out the ids 0, 1, 2, ... in call order, whatever
/// else (adding postings, deleting) happens between them: no id is given
/// out twice, not even after its document was deleted.
pub proof fn registration_ids_count_up(states: Seq<InvertedIndex>, returned: Seq<Option<usize>>)
    requires
        states.len() == returned.len() + 1,
        states[0].next_id() == 0,
        forall|j: int| 0 <= j < returned.len() ==> #[trigger] counter_step(states[j], states[j + 1], returned[j]),
    ensures
        forall|k: int| 0 <= k < returned.len() && #[trigger] returned[k] is Some
            ==> returned[k]->0 == registrations_before(returned, k),
        forall|j: int, k: int| 0 <= j < k < returned.len() && #[trigger] returned[j] is Some && #[trigger] returned[k] is Some
            ==> returned[j]->0 != returned[k]->0,
{
    assert forall|k: int| 0 <= k < returned.len() && #[trigger] returned[k] is Some
        implies returned[k]->0 == registrations_before(returned, k) by {
        lemma_counter_counts(states, returned, k);
        assert(counter_step(states[k], states[k + 1], returned[k]));
    }
    assert forall|j: int, k: int| 0 <= j < k < returned.len() && #[trigger] returned[j] is Some && #[trigger] returned[k] is Some
        implies returned[j]->0 != returned[k]->0 by {
        lemma_counter_counts(states, returned, j);
        lemma_counter_counts(states, returned, k);
        assert(counter_step(states[j], states[j + 1], returned[j]));
        assert(counter_step(states[k], states[k + 1], returned[k]));
        lemma_registrations_grow(returned, j, k);
    }
}

/// Where some clause is `Must`, every answered document is in the set of
/// every `Must` clause.
pub proof fn answers_lie_in_every_must_set(ops: Seq<Operator>, sets: Seq<Set<u32>>, d: u32, k: int)
    requires
        combined(ops, sets).contains(d),
        0 <= k < ops.len(),
        ops[k] == Operator::Must,
    ensures
        sets[k].contains(d),
{
    assert(has_operator(ops, Operator::Must, ops.len() as int));
}

/// Without a `Must` clause, every answered document is in the set of some
/// `Should` clause.
pub proof fn without_must_answers_lie_in_some_should_set(ops: Seq<Operator>, sets: Seq<Set<u32>>, d: u32)
    requires
        combined(ops, sets).contains(d),
        forall|k: int| 0 <= k < ops.len() ==> #[trigger] ops[k] != Operator::Must,
    ensures
        exists|k: int| 0 <= k < ops.len() && #[trigger] ops[k] == Operator::Should && sets[k].contains(d),
{
    if has_operator(ops, Operator::Must, ops.len() as int) {
        let i = choose|i: int| 0 <= i < ops.len() as int && #[trigger] ops[i] == Operator::Must;
        assert(ops[i] != Operator::Must);
    }
}

/// A document in the set of every `Must` clause (there being one) and of no
/// `MustNot` clause answers the query.
pub proof fn documents_in_every_must_set_answer(ops: Seq<Operator>, sets: Seq<Set<u32>>, d: u32, m: int)
    requires
        0 <= m < ops.len(),
        ops[m] == Operator::Must,
        forall|k: int| 0 <= k < ops.len() && #[trigger] ops[k] == Operator::Must ==> sets[k].contains(d),
        forall|k: int| 0 <= k < ops.len() && #[trigger] ops[k] == Operator::MustNot ==> !sets[k].contains(d),
    ensures
        combined(ops, sets).contains(d),
{
    assert(has_operator(ops, Operator::Must, ops.len() as int));
    assert(in_every_must(ops, sets, ops.len() as int, d));
}

/// Analysis distributes over concatenation of token runs: analysing two
/// runs of tokens one after the other gives the terms of the first, then
/// those of the second; nothing is merged or dropped across them, so a
/// repeated token gives a repeated term.
pub proof fn term_filtering_distributes(a: Seq<Seq<char>>, b: Seq<Seq<char>>, stop_words: Seq<Seq<char>>)
    ensures
        filter_and_stem(a + b, stop_words) == filter_and_stem(a, stop_words) + filter_and_stem(b, stop_words),
    decreases b.len(),
{
    if b.len() == 0 {
        assert(a + b =~= a);
        assert(filter_and_stem(a, stop_words) + filter_and_stem(b, stop_words) =~= filter_and_stem(a, stop_words));
    } else {
        term_filtering_distributes(a, b.drop_last(), stop_words);
        assert((a + b).drop_last() =~= a + b.drop_last());
        assert((a + b).last() == b.last());
        let fa = filter_and_stem(a, stop_words);
        let fb = filter_and_stem(b.drop_last(), stop_words);
        assert((fa + fb).push(english_stem_of(b.last())) =~= fa + fb.push(english_stem_of(b.last())));
    }
}

/// One token gives its stem when it has at least two characters and is not
/// a stop word, and nothing otherwise.
pub proof fn single_token_analysis(t: Seq<char>, stop_words: Seq<Seq<char>>)
    ensures
        filter_and_stem(seq![t], stop_words) == if t.len() >= 2 && !stop_words.contains(t) {
            seq![english_stem_of(t)]
        } else {
            Seq::<Seq<char>>::empty()
        },
{
    reveal_with_fuel(filter_and_stem, 2);
    assert(seq![t].drop_last() =~= Seq::<Seq<char>>::empty());
    assert(seq![t].last() == t);
    assert(filter_and_stem(Seq::<Seq<char>>::empty(), stop_words) == Seq::<Seq<char>>::empty());
    assert(Seq::<Seq<char>>::empty().push(english_stem_of(t)) =~= seq![english_stem_of(t)]);
}

/// A token sequence repeated gives its terms repeated: the index counts a
/// term once per surviving occurrence.
pub proof fn repeated_tokens_give_repeated_terms(tokens: Seq<Seq<char>>, stop_words: Seq<Seq<char>>)
    ensures
        filter_and_stem(tokens + tokens, stop_words)
            == filter_and_stem(tokens, stop_words) + filter_and_stem(tokens, stop_words),
{
    term_filtering_distributes(tokens, tokens, stop_words);
}

/// Markdown text distributes over lines: the text of two runs of lines is
/// the text of the first, then that of the second.
pub proof fn markdown_lines_distribute(a: Seq<Seq<char>>, b: Seq<Seq<char>>)
    ensures
        markdown_lines(a + b) == markdown_lines(a) + markdown_lines(b),
    decreases b.len(),
{
    if b.len() == 0 {
        assert(a + b =~= a);
        assert(markdown_lines(a) + markdown_lines(b) =~= markdown_lines(a));
    } else {
        markdown_lines_distribute(a, b.drop_last());
        assert((a + b).drop_last() =~= a + b.drop_last());
        assert((a + b).last() == b.last());
    }
}

/// A line whose trimmed form starts with three backticks is a code fence,
/// whatever follows them: it adds nothing to the text.
pub proof fn fence_lines_add_nothing(before: Seq<Seq<char>>, line: Seq<char>)
    requires
        trimmed(line).len() >= 3,
        trimmed(line)[0] == '`',
        trimmed(line)[1] == '`',
        trimmed(line)[2] == '`',
    ensures
        markdown_lines(before.push(line)) == markdown_lines(before),
{
    assert(before.push(line).drop_last() =~= before);
    assert(markdown_lines(before) + Seq::<char>::empty() =~= markdown_lines(before));
}

/// A line with text that is not a fence adds its trimmed text, with each
/// `**` made `_`, and a space.
pub proof fn prose_lines_add_their_text(before: Seq<Seq<char>>, line: Seq<char>)
    requires
        trimmed(line).len() > 0,
        !(trimmed(line).len() >= 3 && trimmed(line)[0] == '`' && trimmed(line)[1] == '`' && trimmed(line)[2] == '`'),
    ensures
        markdown_lines(before.push(line)) == markdown_lines(before) + bold_replaced(trimmed(line)) + seq![' '],
{
    assert(before.push(line).drop_last() =~= before);
    assert(markdown_lines(before) + (bold_replaced(trimmed(line)) + seq![' '])
        =~= markdown_lines(before) + bold_replaced(trimmed(line)) + seq![' ']);
}

proof fn lemma_split_without_separator(s: Seq<char>, sep: char)
    requires
        !s.contains(sep),
    ensures
        split_on(s, sep) == seq![s],
    decreases s.len(),
{
    if s.len() > 0 {
        assert(!s.drop_last().contains(sep)) by {
            if s.drop_last().contains(sep) {
                let i = choose|i: int| 0 <= i < s.drop_last().len() && s.drop_last()[i] == sep;
                assert(s[i] == sep);
            }
        }
        lemma_split_without_separator(s.drop_last(), sep);
        assert(s[s.len() - 1] != sep);
        assert(s.drop_last().push(s.last()) =~= s);
        assert(seq![s.drop_last()].update(0, s) =~= seq![s]);
    } else {
        assert(s =~= Seq::<char>::empty());
    }
}

proof fn lemma_trim_keeps(s: Seq<char>)
    requires
        s.len() > 0 ==> !is_whitespace_char(s[0]) && !is_whitespace_char(s.last()),
    ensures
        trimmed(s) == s,
{
}

proof fn lemma_strip_keeps(s: Seq<char>, c: char)
    requires
        s.len() > 0 ==> s[0] != c && s.last() != c,
    ensures
        strip_both(s, c) == s,
{
}

/// The string-valued settings of an env file: each known key's entry sets
/// its own field to the value and leaves every other setting as it was.
pub proof fn env_entries_set_their_own_field(c: ConfigView, v: Seq<char>)
    ensures
        apply_env_entry(c, "ZYN_HOST"@, v) == (ConfigView { host: v, ..c }),
        apply_env_entry(c, "ZYN_DB_PATH"@, v) == (ConfigView { db_path: v, ..c }),
        apply_env_entry(c, "ZYN_CORPUS_DIR"@, v) == (ConfigView { corpus_dir: v, ..c }),
        apply_env_entry(c, "ZYN_QUERY"@, v) == (ConfigView { query: Some(v), ..c }),
        apply_env_entry(c, "ZYN_S3_BUCKET"@, v) == (ConfigView { s3_bucket: Some(v), ..c }),
        apply_env_entry(c, "ZYN_S3_PREFIX"@, v) == (ConfigView { s3_prefix: Some(v), ..c }),
{
    reveal_strlit("ZYN_HOST");
    reveal_strlit("ZYN_PORT");
    reveal_strlit("ZYN_DB_PATH");
    reveal_strlit("ZYN_CORPUS_DIR");
    reveal_strlit("ZYN_QUERY");
    reveal_strlit("ZYN_FORMAT");
    reveal_strlit("ZYN_PROTOCOL");
    reveal_strlit("ZYN_INGESTION");
    reveal_strlit("ZYN_DISTRIBUTION");
    reveal_strlit("ZYN_S3_BUCKET");
    reveal_strlit("ZYN_S3_PREFIX");
    assert("ZYN_DB_PATH"@ != "ZYN_HOST"@) by { assert("ZYN_DB_PATH"@.len() != "ZYN_HOST"@.len()); }
    assert("ZYN_DB_PATH"@ != "ZYN_PORT"@) by { assert("ZYN_DB_PATH"@.len() != "ZYN_PORT"@.len()); }
    assert("ZYN_CORPUS_DIR"@ != "ZYN_HOST"@) by { assert("ZYN_CORPUS_DIR"@.len() != "ZYN_HOST"@.len()); }
    assert("ZYN_CORPUS_DIR"@ != "ZYN_PORT"@) by { assert("ZYN_CORPUS_DIR"@.len() != "ZYN_PORT"@.len()); }
    assert("ZYN_CORPUS_DIR"@ != "ZYN_DB_PATH"@) by { assert("ZYN_CORPUS_DIR"@.len() != "ZYN_DB_PATH"@.len()); }
    assert("ZYN_QUERY"@ != "ZYN_HOST"@) by { assert("ZYN_QUERY"@.len() != "ZYN_HOST"@.len()); }
    assert("ZYN_QUERY"@ != "ZYN_PORT"@) by { assert("ZYN_QUERY"@.len() != "ZYN_PORT"@.len()); }
    assert("ZYN_QUERY"@ != "ZYN_DB_PATH"@) by { assert("ZYN_QUERY"@.len() != "ZYN_DB_PATH"@.len()); }
    assert("ZYN_QUERY"@ != "ZYN_CORPUS_DIR"@) by { assert("ZYN_QUERY"@.len() != "ZYN_CORPUS_DIR"@.len()); }
    assert("ZYN_S3_BUCKET"@ != "ZYN_HOST"@) by { assert("ZYN_S3_BUCKET"@.len() != "ZYN_HOST"@.len()); }
    assert("ZYN_S3_BUCKET"@ != "ZYN_PORT"@) by { assert("ZYN_S3_BUCKET"@.len() != "ZYN_PORT"@.len()); }
    assert("ZYN_S3_BUCKET"@ != "ZYN_DB_PATH"@) by { assert("ZYN_S3_BUCKET"@.len() != "ZYN_DB_PATH"@.len()); }
    assert("ZYN_S3_BUCKET"@ != "ZYN_CORPUS_DIR"@) by { assert("ZYN_S3_BUCKET"@.len() != "ZYN_CORPUS_DIR"@.len()); }
    assert("ZYN_S3_BUCKET"@ != "ZYN_QUERY"@) by { assert("ZYN_S3_BUCKET"@.len() != "ZYN_QUERY"@.len()); }
    assert("ZYN_S3_BUCKET"@ != "ZYN_FORMAT"@) by { assert("ZYN_S3_BUCKET"@.len() != "ZYN_FORMAT"@.len()); }
    assert("ZYN_S3_BUCKET"@ != "ZYN_PROTOCOL"@) by { assert("ZYN_S3_BUCKET"@.len() != "ZYN_PROTOCOL"@.len()); }
    assert("ZYN_S3_BUCKET"@ != "ZYN_INGESTION"@) by { assert("ZYN_S3_BUCKET"@[4] != "ZYN_INGESTION"@[4]); }
    assert("ZYN_S3_BUCKET"@ != "ZYN_DISTRIBUTION"@) by { assert("ZYN_S3_BUCKET"@.len() != "ZYN_DISTRIBUTION"@.len()); }
    assert("ZYN_S3_PREFIX"@ != "ZYN_HOST"@) by { assert("ZYN_S3_PREFIX"@.len() != "ZYN_HOST"@.len()); }
    assert("ZYN_S3_PREFIX"@ != "ZYN_PORT"@) by { assert("ZYN_S3_PREFIX"@.len() != "ZYN_PORT"@.len()); }
    assert("ZYN_S3_PREFIX"@ != "ZYN_DB_PATH"@) by { assert("ZYN_S3_PREFIX"@.len() != "ZYN_DB_PATH"@.len()); }
    assert("ZYN_S3_PREFIX"@ != "ZYN_CORPUS_DIR"@) by { assert("ZYN_S3_PREFIX"@.len() != "ZYN_CORPUS_DIR"@.len()); }
    assert("ZYN_S3_PREFIX"@ != "ZYN_QUERY"@) by { assert("ZYN_S3_PREFIX"@.len() != "ZYN_QUERY"@.len()); }
    assert("ZYN_S3_PREFIX"@ != "ZYN_FORMAT"@) by { assert("ZYN_S3_PREFIX"@.len() != "ZYN_FORMAT"@.len()); }
    assert("ZYN_S3_PREFIX"@ != "ZYN_PROTOCOL"@) by { assert("ZYN_S3_PREFIX"@.len() != "ZYN_PROTOCOL"@.len()); }
    assert("ZYN_S3_PREFIX"@ != "ZYN_INGESTION"@) by { assert("ZYN_S3_PREFIX"@[4] != "ZYN_INGESTION"@[4]); }
    assert("ZYN_S3_PREFIX"@ != "ZYN_DISTRIBUTION"@) by { assert("ZYN_S3_PREFIX"@.len() != "ZYN_DISTRIBUTION"@.len()); }
    assert("ZYN_S3_PREFIX"@ != "ZYN_S3_BUCKET"@) by { assert("ZYN_S3_PREFIX"@[7] != "ZYN_S3_BUCKET"@[7]); }
}

/// An env file whose only line is `ZYN_CORPUS_DIR=v` sets the corpus
/// directory to `v` and nothing else, for any `v` without a line break and
/// without whitespace or a double quote at either end.
pub proof fn corpus_dir_line_sets_corpus_dir(c: ConfigView, v: Seq<char>)
    requires
        !v.contains('\n'),
        v.len() > 0 ==> !is_whitespace_char(v[0]) && !is_whitespace_char(v.last()) && v[0] != '"' && v.last() != '"',
    ensures
        env_applied(c, split_on("ZYN_CORPUS_DIR="@ + v, '\n')) == (ConfigView { corpus_dir: v, ..c }),
{
    reveal_strlit("ZYN_CORPUS_DIR=");
    reveal_strlit("ZYN_CORPUS_DIR");
    let key = "ZYN_CORPUS_DIR"@;
    let line = "ZYN_CORPUS_DIR="@ + v;
    assert(line.len() == 15 + v.len());
    assert(!line.contains('\n')) by {
        if line.contains('\n') {
            let i = choose|i: int| 0 <= i < line.len() && line[i] == '\n';
            if i >= 15 {
                assert(v[i - 15] == '\n');
            }
        }
    }
    lemma_split_without_separator(line, '\n');
    assert(seq![line].drop_last() =~= Seq::<Seq<char>>::empty());
    assert(seq![line].last() == line);
    assert(line[0] == 'Z');
    assert(!is_whitespace_char(line[0]));
    if v.len() > 0 {
        assert(line.last() == v.last());
    } else {
        assert(line.last() == '=');
    }
    lemma_trim_keeps(line);
    let t = trimmed(line);
    assert(t == line);
    assert(t[14] == '=');
    assert(is_first_index(t, '=', 14));
    assert(t.contains('='));
    let k = choose|k: int| is_first_index(t, '=', k);
    assert(k == 14) by {
        if k < 14 {
            assert(t[k] != '=');
        } else if k > 14 {
            assert(t[14] != '=');
        }
    }
    assert(t.take(14) =~= key);
    lemma_trim_keeps(key);
    assert(t.skip(15) =~= v);
    lemma_trim_keeps(v);
    lemma_strip_keeps(v, '"');
    assert(env_line_entry(line) == Some((key, v)));
    env_entries_set_their_own_field(c, v);
    reveal_with_fuel(env_applied, 2);
    assert(env_applied(c, Seq::<Seq<char>>::empty()) == c);
    assert(env_applied(c, seq![line]) == apply_env_entry(c, key, v));
}

proof fn lemma_kept_only(cands: Seq<Seq<char>>, missing: Seq<bool>, x: Seq<char>)
    requires
        kept_candidates(cands, missing).contains(x),
    ensures
        exists|j: int| 0 <= j < cands.len() && cands[j] == x && !missing[j],
    decreases cands.len(),
{
    if cands.len() > 0 {
        let prev = kept_candidates(cands.drop_last(), missing);
        let last = cands.len() - 1;
        if !missing[last] && x == cands[last] {
            assert(cands[last] == x && !missing[last]);
        } else {
            if !missing[last] {
                let i = choose|i: int| 0 <= i < prev.push(cands.last()).len() && prev.push(cands.last())[i] == x;
                assert(prev[i] == x);
            }
            assert(prev.contains(x));
            lemma_kept_only(cands.drop_last(), missing, x);
            let j = choose|j: int| 0 <= j < cands.drop_last().len() && cands.drop_last()[j] == x && !missing[j];
            assert(cands[j] == x);
        }
    }
}

proof fn lemma_dropped_contains(cands: Seq<Seq<char>>, missing: Seq<bool>, k: int)
    requires
        0 <= k < cands.len(),
        missing.len() >= cands.len(),
        missing[k],
    ensures
        dropped_candidates(cands, missing).contains(cands[k]),
    decreases cands.len(),
{
    let prev = dropped_candidates(cands.drop_last(), missing);
    if k == cands.len() - 1 {
        assert(prev.push(cands.last())[prev.len() as int] == cands[k]);
    } else {
        lemma_dropped_contains(cands.drop_last(), missing, k);
        let j = choose|j: int| 0 <= j < prev.len() && prev[j] == cands[k];
        if missing[cands.len() - 1] {
            assert(prev.push(cands.last())[j] == cands[k]);
        }
    }
}

/// Of the hits of a search (distinct paths), one that is a file-system
/// document whose file the file system reports absent is left out of the
/// answer and is among those deleted; every other hit is answered.
pub proof fn vanished_hits_are_dropped(index: InvertedIndex, cands: Seq<Seq<char>>, exists: Seq<bool>, k: int)
    requires
        cands.no_duplicates(),
        0 <= k < cands.len(),
        exists.len() == cands.len(),
    ensures
        kind_of_path(index, cands[k]) == DocumentSourceKind::Filesystem && !exists[k] ==> {
            &&& !kept_candidates(cands, vanished_flags(index, cands, exists)).contains(cands[k])
            &&& dropped_candidates(cands, vanished_flags(index, cands, exists)).contains(cands[k])
        },
        !(kind_of_path(index, cands[k]) == DocumentSourceKind::Filesystem && !exists[k])
            ==> kept_candidates(cands, vanished_flags(index, cands, exists)).contains(cands[k]),
{
    let m = vanished_flags(index, cands, exists);
    if m[k] {
        lemma_dropped_contains(cands, m, k);
        if kept_candidates(cands, m).contains(cands[k]) {
            lemma_kept_only(cands, m, cands[k]);
            let j = choose|j: int| 0 <= j < cands.len() && cands[j] == cands[k] && !m[j];
            assert(j != k);
        }
    } else {
        lemma_kept_contains(cands, m, k);
    }
}

} // verus!
