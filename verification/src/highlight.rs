//! The text of a picker cell with the matched characters picked out.
use vstd::prelude::*;
use vstd::string::*;
use crate::text;

verus! {

/// A piece of a cell as the column formats it. Styles are keys.
pub struct CellSpan {
    pub content: String,
    /// How the piece is shown.
    pub style: u64,
    /// How a matched part of the piece is shown.
    pub lit: u64,
}

/// A piece of text in one style.
pub struct StyledText {
    pub content: String,
    pub style: u64,
}

/// A grapheme cluster with the style that it has and the one it gets when it
/// is matched.
pub struct Cluster {
    pub content: String,
    pub style: u64,
    pub lit: u64,
}

/// The model of a [`Cluster`].
pub open spec fn cluster_view(c: Cluster) -> (Seq<char>, u64, u64) {
    (c.content@, c.style, c.lit)
}

/// The model of a [`StyledText`].
pub open spec fn run_view(t: StyledText) -> (Seq<char>, u64) {
    (t.content@, t.style)
}

/// The clusters of one piece, with its styles.
pub open spec fn span_clusters(span: CellSpan) -> Seq<(Seq<char>, u64, u64)> {
    text::clusters(span.content@).map_values(|g: Seq<char>| (g, span.style, span.lit))
}

/// The clusters of all pieces, in order.
pub open spec fn all_clusters(spans: Seq<CellSpan>) -> Seq<(Seq<char>, u64, u64)>
    decreases spans.len(),
{
    if spans.len() == 0 {
        Seq::empty()
    } else {
        all_clusters(spans.drop_last()) + span_clusters(spans.last())
    }
}

/// Each cluster in the style it is shown in: the matched ones stand out.
pub open spec fn styled(all: Seq<(Seq<char>, u64, u64)>, positions: Seq<u32>) -> Seq<(Seq<char>, u64)> {
    Seq::new(
        all.len(),
        |k: int|
            (
                all[k].0,
                if k <= u32::MAX && positions.contains(k as u32) {
                    all[k].2
                } else {
                    all[k].1
                },
            ),
    )
}

/// Neighbours of the same style taken together. With no text at all there is
/// one empty run in the plain style.
pub open spec fn runs(parts: Seq<(Seq<char>, u64)>, plain: u64) -> Seq<(Seq<char>, u64)>
    decreases parts.len(),
{
    if parts.len() == 0 {
        seq![(Seq::<char>::empty(), plain)]
    } else {
        let before = runs(parts.drop_last(), plain);
        let (text, style) = before.last();
        let (next, next_style) = parts.last();
        if next_style == style {
            before.drop_last().push((text + next, style))
        } else if text.len() == 0 {
            before.drop_last().push((next, next_style))
        } else {
            before.push((next, next_style))
        }
    }
}

/// The sum of the widths of the first pieces, as far as it can be counted.
pub open spec fn total_width(spans: Seq<CellSpan>) -> int
    decreases spans.len(),
{
    if spans.len() == 0 {
        0
    } else {
        crate::geometry::least(
            total_width(spans.drop_last()) + text::display_width(spans.last().content@),
            usize::MAX as int,
        )
    }
}

/// Whether each number is greater than the one before it.
pub open spec fn ascending(list: Seq<u32>) -> bool {
    forall|i: int, j: int| 0 <= i < j < list.len() ==> list[i] < list[j]
}

/// The numbers of a list in ascending order, each once.
pub fn sorted_unique(list: &Vec<u32>) -> (sorted: Vec<u32>)
    ensures
        ascending(sorted@),
        forall|x: u32| sorted@.contains(x) <==> list@.contains(x),
{
    let mut sorted: Vec<u32> = Vec::new();
    let mut i: usize = 0;
    while i < list.len()
        invariant
            i <= list@.len(),
            ascending(sorted@),
            forall|x: u32| #[trigger] sorted@.contains(x) <==> list@.take(i as int).contains(x),
        decreases list@.len() - i,
    {
        let x: u32 = list[i];
        let mut at: usize = sorted.len();
        while at > 0 && sorted[at - 1] > x
            invariant
                at <= sorted@.len(),
                forall|j: int| at <= j < sorted@.len() ==> sorted@[j] > x,
            decreases at,
        {
            at -= 1;
        }
        let ghost before = sorted@;
        let ghost seen = list@.take(i as int);
        assert(list@.take(i + 1) =~= seen.push(x));
        if at == 0 || sorted[at - 1] < x {
            assert forall|j: int| 0 <= j < at implies before[j] < x by {
                assert(j == at - 1 || before[j] < before[at - 1]);
            }
            sorted.insert(at, x);
            assert(sorted@ == before.insert(at as int, x));
            assert forall|y: u32| #[trigger] sorted@.contains(y) <==> seen.push(x).contains(y) by {
                if before.contains(y) {
                    let j = choose|j: int| 0 <= j < before.len() && before[j] == y;
                    if j < at {
                        assert(sorted@[j] == y);
                    } else {
                        assert(sorted@[j + 1] == y);
                    }
                }
                if y == x {
                    assert(sorted@[at as int] == y);
                    assert(seen.push(x)[seen.len() as int] == y);
                }
                if sorted@.contains(y) && y != x {
                    let j = choose|j: int| 0 <= j < sorted@.len() && sorted@[j] == y;
                    if j < at {
                        assert(before[j] == y);
                    } else {
                        assert(before[j - 1] == y);
                    }
                    assert(before.contains(y));
                }
                lemma_push_contains(seen, x, y);
            }
        } else {
            assert forall|y: u32| #[trigger] sorted@.contains(y) <==> seen.push(x).contains(y) by {
                assert(before[at - 1] == x);
                lemma_push_contains(seen, x, y);
            }
        }
        i += 1;
    }
    assert(list@.take(list@.len() as int) =~= list@);
    sorted
}

proof fn lemma_push_contains(s: Seq<u32>, x: u32, y: u32)
    ensures
        s.push(x).contains(y) <==> s.contains(y) || y == x,
{
    if s.contains(y) {
        let j = choose|j: int| 0 <= j < s.len() && s[j] == y;
        assert(s.push(x)[j] == y);
    }
    if y == x {
        assert(s.push(x)[s.len() as int] == y);
    }
    if s.push(x).contains(y) && y != x {
        let j = choose|j: int| 0 <= j < s.push(x).len() && s.push(x)[j] == y;
        assert(s[j] == y);
    }
}

/// Cuts pieces into their grapheme clusters.
fn cut(spans: &Vec<CellSpan>) -> (all: Vec<Cluster>)
    ensures
        all@.map_values(|c: Cluster| cluster_view(c)) == all_clusters(spans@),
{
    let mut all: Vec<Cluster> = Vec::new();
    let mut i: usize = 0;
    assert(spans@.take(0) =~= Seq::<CellSpan>::empty());
    assert(all@.map_values(|c: Cluster| cluster_view(c)) =~= all_clusters(spans@.take(0)));
    while i < spans.len()
        invariant
            i <= spans@.len(),
            all@.map_values(|c: Cluster| cluster_view(c)) == all_clusters(spans@.take(i as int)),
        decreases spans@.len() - i,
    {
        let span: &CellSpan = &spans[i];
        let list: Vec<String> = text::graphemes(span.content.as_str());
        let ghost before = all_clusters(spans@.take(i as int));
        let ghost own = span_clusters(*span);
        assert(own.len() == list@.len());
        assert(before + own.take(0) =~= before);
        let mut j: usize = 0;
        while j < list.len()
            invariant
                j <= list@.len(),
                text::texts(list@) == text::clusters(span.content@),
                own == span_clusters(*span),
                own.len() == list@.len(),
                all@.map_values(|c: Cluster| cluster_view(c)) == before + own.take(j as int),
            decreases list@.len() - j,
        {
            assert(text::texts(list@)[j as int] == list@[j as int]@);
            let ghost so_far = all@;
            all.push(Cluster { content: list[j].clone(), style: span.style, lit: span.lit });
            assert(all@.map_values(|c: Cluster| cluster_view(c)) =~= so_far.map_values(
                |c: Cluster| cluster_view(c),
            ).push(own[j as int]));
            assert(before + own.take(j + 1) =~= (before + own.take(j as int)).push(own[j as int]));
            j += 1;
        }
        assert(own.take(own.len() as int) =~= own);
        assert(spans@.take(i + 1).drop_last() =~= spans@.take(i as int));
        i += 1;
    }
    assert(spans@.take(spans@.len() as int) =~= spans@);
    all
}

/// The width of all pieces together.
pub fn width_of_spans(spans: &Vec<CellSpan>) -> (width: usize)
    ensures
        width == total_width(spans@),
{
    let mut width: usize = 0;
    let mut i: usize = 0;
    assert(spans@.take(0) =~= Seq::<CellSpan>::empty());
    while i < spans.len()
        invariant
            i <= spans@.len(),
            width == total_width(spans@.take(i as int)),
        decreases spans@.len() - i,
    {
        assert(spans@.take(i + 1).drop_last() =~= spans@.take(i as int));
        width = width.saturating_add(text::width_of(spans[i].content.as_str()));
        i += 1;
    }
    assert(spans@.take(spans@.len() as int) =~= spans@);
    width
}

/// The text of a cell with its matched clusters picked out, and its width.
///
/// `positions` are the clusters that matched, counted over all pieces, in any
/// order and possibly more than once. The matcher only ever considers the
/// first character of a cluster, so what it calls characters are clusters.
pub fn highlight_spans(spans: &Vec<CellSpan>, positions: &Vec<u32>, plain: u64) -> (cell: (
    Vec<StyledText>,
    usize,
))
    ensures
        cell.0@.map_values(|t: StyledText| run_view(t)) == runs(
            styled(all_clusters(spans@), positions@),
            plain,
        ),
        cell.1 == total_width(spans@),
{
    let sorted: Vec<u32> = sorted_unique(positions);
    let all: Vec<Cluster> = cut(spans);
    let ghost parts = styled(all_clusters(spans@), positions@);
    let mut list: Vec<StyledText> = Vec::new();
    let mut current: String = String::new();
    let mut style: u64 = plain;
    let mut next: usize = 0;
    let mut k: usize = 0;
    assert(parts.take(0) =~= Seq::<(Seq<char>, u64)>::empty());
    assert(list@.map_values(|t: StyledText| run_view(t)).push((current@, style)) =~= runs(
        parts.take(0),
        plain,
    ));
    while k < all.len()
        invariant
            k <= all@.len(),
            all@.map_values(|c: Cluster| cluster_view(c)) == all_clusters(spans@),
            parts == styled(all_clusters(spans@), positions@),
            ascending(sorted@),
            forall|x: u32| sorted@.contains(x) <==> positions@.contains(x),
            next <= sorted@.len(),
            forall|j: int| 0 <= j < next ==> sorted@[j] < k,
            next < sorted@.len() ==> sorted@[next as int] >= k,
            list@.map_values(|t: StyledText| run_view(t)).push((current@, style)) == runs(
                parts.take(k as int),
                plain,
            ),
        decreases all@.len() - k,
    {
        let ghost whole = all_clusters(spans@);
        assert(whole[k as int] == cluster_view(all@[k as int]));
        let lit: bool = next < sorted.len() && sorted[next] as usize == k;
        proof {
            if lit {
                assert(sorted@.contains(sorted@[next as int]));
            } else if k <= u32::MAX && sorted@.contains(k as u32) {
                let j = choose|j: int| 0 <= j < sorted@.len() && sorted@[j] == k as u32;
                assert(next <= j);
                assert(next == j || sorted@[next as int] < sorted@[j]);
            }
        }
        let this: u64 = if lit { all[k].lit } else { all[k].style };
        assert(parts[k as int] == (all@[k as int].content@, this));
        if lit {
            next += 1;
        }
        let ghost before = runs(parts.take(k as int), plain);
        assert(before.last() == (current@, style));
        assert(before.drop_last() =~= list@.map_values(|t: StyledText| run_view(t)));
        assert(parts.take(k + 1).drop_last() =~= parts.take(k as int));
        if this != style {
            if !current.as_str().is_empty() {
                let ghost done = list@;
                list.push(StyledText { content: current, style });
                assert(list@.map_values(|t: StyledText| run_view(t)) =~= before);
            }
            current = String::new();
            style = this;
        }
        let ghost text_before = current@;
        current.append(all[k].content.as_str());
        assert(text_before + all@[k as int].content@ == current@);
        assert(Seq::<char>::empty() + all@[k as int].content@ =~= all@[k as int].content@);
        k += 1;
        assert(list@.map_values(|t: StyledText| run_view(t)).push((current@, style)) =~= runs(
            parts.take(k as int),
            plain,
        ));
    }
    assert(parts.take(parts.len() as int) =~= parts);
    let ghost done = list@;
    let ghost last = (current@, style);
    list.push(StyledText { content: current, style });
    assert(list@.map_values(|t: StyledText| run_view(t)) =~= done.map_values(
        |t: StyledText| run_view(t),
    ).push(last));
    (list, width_of_spans(spans))
}

/// The texts of a list of runs or clusters.
pub open spec fn contents(parts: Seq<(Seq<char>, u64)>) -> Seq<Seq<char>> {
    parts.map_values(|p: (Seq<char>, u64)| p.0)
}

/// Picking out matches does not change the text: the runs, one behind the
/// other, hold what the clusters held.
pub proof fn law_runs_keep_the_text(parts: Seq<(Seq<char>, u64)>, plain: u64)
    ensures
        text::concatenated(contents(runs(parts, plain))) == text::concatenated(contents(parts)),
    decreases parts.len(),
{
    if parts.len() == 0 {
        reveal_with_fuel(text::concatenated, 2);
        let only = contents(runs(parts, plain));
        assert(only =~= seq![Seq::<char>::empty()]);
        assert(only.drop_last() =~= Seq::<Seq<char>>::empty());
        assert(text::concatenated(only) =~= Seq::<char>::empty());
        assert(contents(parts) =~= Seq::<Seq<char>>::empty());
    } else {
        law_runs_keep_the_text(parts.drop_last(), plain);
        lemma_runs_nonempty(parts.drop_last(), plain);
        let before = runs(parts.drop_last(), plain);
        let now = runs(parts, plain);
        let next = parts.last().0;
        assert(contents(parts).drop_last() =~= contents(parts.drop_last()));
        assert(contents(before).drop_last() =~= contents(before.drop_last()));
        if now.len() == before.len() {
            assert(contents(now).drop_last() =~= contents(before).drop_last());
            assert(contents(before).last() == before.last().0);
            assert(contents(now).last() == before.last().0 + next || before.last().0.len() == 0);
            assert(before.last().0 + next =~= contents(now).last());
        } else {
            assert(contents(now).drop_last() =~= contents(before));
        }
        assert(text::concatenated(contents(now)) =~= text::concatenated(contents(parts)));
    }
}

proof fn lemma_runs_nonempty(parts: Seq<(Seq<char>, u64)>, plain: u64)
    ensures
        runs(parts, plain).len() > 0,
    decreases parts.len(),
{
    if parts.len() > 0 {
        lemma_runs_nonempty(parts.drop_last(), plain);
    }
}

/// No two neighbouring runs have the same style, and no run before the last is
/// empty.
pub proof fn law_runs_are_maximal(parts: Seq<(Seq<char>, u64)>, plain: u64)
    requires
        forall|i: int| 0 <= i < parts.len() ==> (#[trigger] parts[i]).0.len() > 0,
    ensures
        forall|i: int|
            #![trigger runs(parts, plain)[i]]
            0 <= i < runs(parts, plain).len() - 1 ==> runs(parts, plain)[i].1 != runs(parts, plain)[i
                + 1].1 && runs(parts, plain)[i].0.len() > 0,
        parts.len() > 0 ==> runs(parts, plain).last().0.len() > 0,
    decreases parts.len(),
{
    lemma_runs_nonempty(parts, plain);
    if parts.len() > 0 {
        law_runs_are_maximal(parts.drop_last(), plain);
        lemma_runs_nonempty(parts.drop_last(), plain);
        let before = runs(parts.drop_last(), plain);
        let now = runs(parts, plain);
        assert forall|i: int| #![trigger now[i]] 0 <= i < now.len() - 1 implies now[i].1 != now[i + 1].1
            && now[i].0.len() > 0 by {
            assert(now[i] == before[i]);
            if i + 1 < before.len() {
                assert(before[i].1 != before[i + 1].1);
            }
        }
    }
}

/// A cluster stands out exactly if it is among those that matched; its text
/// stays, and so do all the others.
pub proof fn law_matched_clusters_stand_out(
    all: Seq<(Seq<char>, u64, u64)>,
    positions: Seq<u32>,
    k: u32,
)
    requires
        k < all.len(),
    ensures
        styled(all, positions).len() == all.len(),
        styled(all, positions)[k as int].0 == all[k as int].0,
        (exists|i: int| 0 <= i < positions.len() && positions[i] == k) ==> styled(
            all,
            positions,
        )[k as int].1 == all[k as int].2,
        (forall|i: int| 0 <= i < positions.len() ==> positions[i] != k) ==> styled(
            all,
            positions,
        )[k as int].1 == all[k as int].1,
{
}

/// The clusters of pieces come in the order of the pieces, and each has the
/// styles of its piece.
pub proof fn law_clusters_have_the_styles_of_their_piece(
    spans: Seq<CellSpan>,
    span: CellSpan,
    k: int,
)
    requires
        0 <= k < text::clusters(span.content@).len(),
    ensures
        ({
            let before = all_clusters(spans);
            let all = all_clusters(spans.push(span));
            &&& all.len() == before.len() + text::clusters(span.content@).len()
            &&& all.take(before.len() as int) == before
            &&& all[before.len() + k].0 == text::clusters(span.content@)[k]
            &&& all[before.len() + k].1 == span.style
            &&& all[before.len() + k].2 == span.lit
        }),
{
    assert(spans.push(span).drop_last() =~= spans);
    let before = all_clusters(spans);
    assert((before + span_clusters(span)).take(before.len() as int) =~= before);
}

/// The style of each character, of pieces of text one behind the other.
pub open spec fn character_styles(parts: Seq<(Seq<char>, u64)>) -> Seq<(char, u64)>
    decreases parts.len(),
{
    if parts.len() == 0 {
        Seq::empty()
    } else {
        character_styles(parts.drop_last()) + parts.last().0.map_values(
            |c: char| (c, parts.last().1),
        )
    }
}

/// Taking neighbours of the same style together changes no character and no
/// style: each character is shown in the style of the cluster that it is of.
pub proof fn law_runs_keep_every_style(parts: Seq<(Seq<char>, u64)>, plain: u64)
    ensures
        character_styles(runs(parts, plain)) == character_styles(parts),
    decreases parts.len(),
{
    let now = runs(parts, plain);
    if parts.len() == 0 {
        reveal_with_fuel(character_styles, 2);
        assert(now.drop_last() =~= Seq::<(Seq<char>, u64)>::empty());
        assert(character_styles(now) =~= character_styles(parts));
    } else {
        law_runs_keep_every_style(parts.drop_last(), plain);
        lemma_runs_nonempty(parts.drop_last(), plain);
        let before = runs(parts.drop_last(), plain);
        if now.len() == before.len() {
            assert(now.drop_last() =~= before.drop_last());
        } else {
            assert(now.drop_last() =~= before);
        }
        assert(character_styles(now) =~= character_styles(parts));
    }
}

/// The width of pieces is the sum of their widths, as long as it can be
/// counted: a piece more adds its own.
pub proof fn law_widths_add_up(spans: Seq<CellSpan>, span: CellSpan)
    ensures
        total_width(Seq::<CellSpan>::empty()) == 0,
        total_width(spans) + text::display_width(span.content@) <= usize::MAX ==> total_width(
            spans.push(span),
        ) == total_width(spans) + text::display_width(span.content@),
        total_width(spans.push(span)) >= total_width(spans) || total_width(spans) > usize::MAX,
{
    assert(spans.push(span).drop_last() =~= spans);
}

/// Pieces and clusters are seen as they are.
pub proof fn law_pieces_are_seen_as_they_are(piece: StyledText, cluster: Cluster)
    ensures
        run_view(piece).0 == piece.content@,
        run_view(piece).1 == piece.style,
        cluster_view(cluster).0 == cluster.content@,
        cluster_view(cluster).1 == cluster.style,
        cluster_view(cluster).2 == cluster.lit,
{
}

/// A list that ascends holds no number twice, and each is greater than those
/// before it.
pub proof fn law_ascending_lists_are_in_order(list: Seq<u32>, i: int, j: int)
    requires
        ascending(list),
        0 <= i < list.len(),
        0 <= j < list.len(),
    ensures
        list[i] < list[j] <==> i < j,
        list[i] == list[j] <==> i == j,
{
}

} // verus!
