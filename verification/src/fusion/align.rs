use vstd::prelude::*;
use crate::base::geometry::BBox;
use crate::base::model::{Block, BlockView};

verus! {

/// A parser block and the OCR block matched to it, with their overlap in
/// millionths and the distance of their centres in hundredths of a unit.
#[derive(Debug, Clone)]
pub struct MatchedPair {
    pub a: Block,
    pub b: Block,
    pub iou: u32,
    pub center_distance: u64,
}

/// The outcome of matching two block lists.
#[derive(Debug, Clone)]
pub struct AlignmentResult {
    pub matched: Vec<MatchedPair>,
    pub unmatched_a: Vec<Block>,
    pub unmatched_b: Vec<Block>,
}

/// The value of a [`MatchedPair`].
pub struct MatchedPairView {
    pub a: BlockView,
    pub b: BlockView,
    pub iou: u32,
    pub center_distance: u64,
}

/// The value of an [`AlignmentResult`].
pub struct AlignmentResultView {
    pub matched: Seq<MatchedPairView>,
    pub unmatched_a: Seq<BlockView>,
    pub unmatched_b: Seq<BlockView>,
}

impl DeepView for MatchedPair {
    type V = MatchedPairView;

    open spec fn deep_view(&self) -> MatchedPairView {
        MatchedPairView {
            a: self.a@,
            b: self.b@,
            iou: self.iou,
            center_distance: self.center_distance,
        }
    }
}

impl View for MatchedPair {
    type V = MatchedPairView;

    open spec fn view(&self) -> MatchedPairView {
        self.deep_view()
    }
}

impl DeepView for AlignmentResult {
    type V = AlignmentResultView;

    open spec fn deep_view(&self) -> AlignmentResultView {
        AlignmentResultView {
            matched: self.matched.deep_view(),
            unmatched_a: self.unmatched_a.deep_view(),
            unmatched_b: self.unmatched_b.deep_view(),
        }
    }
}

impl View for AlignmentResult {
    type V = AlignmentResultView;

    open spec fn view(&self) -> AlignmentResultView {
        self.deep_view()
    }
}

/// How well `b` suits `a`, in millionths: the overlap, a bonus of 0.1 for equal
/// kinds, less one ten-thousandth of the distance between the centres.
pub open spec fn pair_score(a: BlockView, b: BlockView) -> int {
    a.bbox().spec_iou(b.bbox()) + (if a.kind() == b.kind() {
        100_000int
    } else {
        0
    }) - a.bbox().spec_center_distance(b.bbox())
}

/// A match is kept when the boxes overlap by more than a tenth or their
/// centres are less than 150 units apart.
pub open spec fn pair_accepted(a: BBox, b: BBox) -> bool {
    a.spec_iou(b) > 100_000 || a.spec_center_distance(b) < 15_000
}

/// `j` is the first free block of `bs` with the highest score for `a`.
pub open spec fn is_best_candidate(a: BlockView, bs: Seq<BlockView>, used: Set<int>, j: int) -> bool {
    &&& 0 <= j < bs.len()
    &&& !used.contains(j)
    &&& forall|k: int|
        0 <= k < bs.len() && !used.contains(k) ==> #[trigger] pair_score(a, bs[k]) <= pair_score(
            a,
            bs[j],
        )
    &&& forall|k: int|
        0 <= k < j && !used.contains(k) ==> #[trigger] pair_score(a, bs[k]) < pair_score(a, bs[j])
}

/// The best free candidate for `a`; there is none only when no block is free.
pub open spec fn best_candidate(a: BlockView, bs: Seq<BlockView>, used: Set<int>) -> Option<int> {
    if exists|j: int| is_best_candidate(a, bs, used, j) {
        Some(choose|j: int| is_best_candidate(a, bs, used, j))
    } else {
        None
    }
}

/// The block matched to `a`: its best candidate, if the match is accepted.
pub open spec fn choose_partner(a: BlockView, bs: Seq<BlockView>, used: Set<int>) -> Option<int> {
    match best_candidate(a, bs, used) {
        Some(j) => if pair_accepted(a.bbox(), bs[j].bbox()) {
            Some(j)
        } else {
            None
        },
        None => None,
    }
}

/// The blocks of the second list that an assignment has used.
pub open spec fn taken(assignment: Seq<Option<int>>) -> Set<int> {
    Set::new(|j: int| assignment.contains(Some(j)))
}

/// The greedy assignment: each block of `a`, in order, takes its partner
/// among the blocks of `b` that the earlier ones left free.
pub open spec fn greedy_assignment(a: Seq<BlockView>, b: Seq<BlockView>) -> Seq<Option<int>>
    decreases a.len(),
{
    if a.len() == 0 {
        Seq::empty()
    } else {
        let earlier = greedy_assignment(a.drop_last(), b);
        earlier.push(choose_partner(a.last(), b, taken(earlier)))
    }
}

/// The pair of `a` and `b` with its measurements.
pub open spec fn pair_of(a: BlockView, b: BlockView) -> MatchedPairView {
    MatchedPairView {
        a,
        b,
        iou: a.bbox().spec_iou(b.bbox()) as u32,
        center_distance: a.bbox().spec_center_distance(b.bbox()) as u64,
    }
}

/// The matched pairs of an assignment, in the order of `a`.
pub open spec fn matched_of(
    a: Seq<BlockView>,
    b: Seq<BlockView>,
    assignment: Seq<Option<int>>,
) -> Seq<MatchedPairView>
    decreases assignment.len(),
{
    if assignment.len() == 0 {
        Seq::empty()
    } else {
        let earlier = matched_of(a, b, assignment.drop_last());
        match assignment.last() {
            Some(j) => earlier.push(pair_of(a[assignment.len() - 1], b[j])),
            None => earlier,
        }
    }
}

/// The blocks of `a` that an assignment leaves without partner, in order.
pub open spec fn unmatched_first(a: Seq<BlockView>, assignment: Seq<Option<int>>) -> Seq<BlockView>
    decreases assignment.len(),
{
    if assignment.len() == 0 {
        Seq::empty()
    } else {
        let earlier = unmatched_first(a, assignment.drop_last());
        match assignment.last() {
            Some(_) => earlier,
            None => earlier.push(a[assignment.len() - 1]),
        }
    }
}

/// The first `n` blocks of `b` that are not in `used`, in order.
pub open spec fn unmatched_second(b: Seq<BlockView>, used: Set<int>, n: int) -> Seq<BlockView>
    decreases n,
{
    if n <= 0 {
        Seq::empty()
    } else if used.contains(n - 1) {
        unmatched_second(b, used, n - 1)
    } else {
        unmatched_second(b, used, n - 1).push(b[n - 1])
    }
}

/// The alignment of two block lists.
pub open spec fn align_spec(a: Seq<BlockView>, b: Seq<BlockView>) -> AlignmentResultView {
    let assignment = greedy_assignment(a, b);
    AlignmentResultView {
        matched: matched_of(a, b, assignment),
        unmatched_a: unmatched_first(a, assignment),
        unmatched_b: unmatched_second(b, taken(assignment), b.len() as int),
    }
}

/// At most one block is the best candidate.
pub proof fn lemma_best_candidate_unique(
    a: BlockView,
    bs: Seq<BlockView>,
    used: Set<int>,
    j1: int,
    j2: int,
)
    requires
        is_best_candidate(a, bs, used, j1),
        is_best_candidate(a, bs, used, j2),
    ensures
        j1 == j2,
{
    if j1 < j2 {
        assert(pair_score(a, bs[j1]) < pair_score(a, bs[j2]));
        assert(pair_score(a, bs[j2]) <= pair_score(a, bs[j1]));
    } else if j2 < j1 {
        assert(pair_score(a, bs[j2]) < pair_score(a, bs[j1]));
        assert(pair_score(a, bs[j1]) <= pair_score(a, bs[j2]));
    }
}

/// Among the first `n` blocks of `bs`, where one is free, the first free block with the highest score.
proof fn lemma_best_in_prefix(a: BlockView, bs: Seq<BlockView>, used: Set<int>, n: int) -> (j: int)
    requires
        0 <= n <= bs.len(),
        exists|k: int| 0 <= k < n && !used.contains(k),
    ensures
        0 <= j < n,
        !used.contains(j),
        forall|k: int|
            0 <= k < n && !used.contains(k) ==> #[trigger] pair_score(a, bs[k]) <= pair_score(
                a,
                bs[j],
            ),
        forall|k: int|
            0 <= k < j && !used.contains(k) ==> #[trigger] pair_score(a, bs[k]) < pair_score(a, bs[j]),
    decreases n,
{
    let last = n - 1;
    if exists|k: int| 0 <= k < last && !used.contains(k) {
        let earlier = lemma_best_in_prefix(a, bs, used, last);
        if !used.contains(last) && pair_score(a, bs[last]) > pair_score(a, bs[earlier]) {
            last
        } else {
            earlier
        }
    } else {
        let k = choose|k: int| 0 <= k < n && !used.contains(k);
        assert(k == last);
        last
    }
}

/// A block has a best candidate exactly when some block of the second list is free.
pub proof fn lemma_best_candidate_exists(a: BlockView, bs: Seq<BlockView>, used: Set<int>)
    ensures
        best_candidate(a, bs, used) is Some <==> exists|k: int|
            0 <= k < bs.len() && !used.contains(k),
{
    if exists|k: int| 0 <= k < bs.len() && !used.contains(k) {
        let j = lemma_best_in_prefix(a, bs, used, bs.len() as int);
        assert(is_best_candidate(a, bs, used, j));
    }
    if best_candidate(a, bs, used) is Some {
        let j = choose|j: int| is_best_candidate(a, bs, used, j);
        assert(0 <= j < bs.len() && !used.contains(j));
    }
}

/// The assignment has one entry for each block of `a`; every partner is a
/// block of `b`, and it was free when it was taken.
pub proof fn lemma_assignment_shape(a: Seq<BlockView>, b: Seq<BlockView>)
    ensures
        greedy_assignment(a, b).len() == a.len(),
        forall|i: int|
            0 <= i < a.len() ==> (#[trigger] greedy_assignment(a, b)[i] matches Some(j) ==> 0 <= j
                < b.len()),
        forall|i1: int, i2: int|
            0 <= i1 < i2 < a.len() && greedy_assignment(a, b)[i1] is Some ==> #[trigger] greedy_assignment(
                a,
                b,
            )[i1] != #[trigger] greedy_assignment(a, b)[i2],
    decreases a.len(),
{
    if a.len() > 0 {
        let earlier = greedy_assignment(a.drop_last(), b);
        lemma_assignment_shape(a.drop_last(), b);
        let last = choose_partner(a.last(), b, taken(earlier));
        let all = greedy_assignment(a, b);
        assert(all == earlier.push(last));
        if last is Some {
            let j = last->0;
            assert(is_best_candidate(a.last(), b, taken(earlier), j));
            assert(!earlier.contains(Some(j)));
        }
        assert forall|i1: int, i2: int|
            0 <= i1 < i2 < a.len() && all[i1] is Some implies #[trigger] all[i1] != #[trigger] all[i2] by {
            if i2 == a.len() - 1 {
                if all[i1] == all[i2] {
                    assert(earlier[i1] == last);
                    assert(earlier.contains(last));
                }
            } else {
                assert(earlier[i1] == all[i1]);
                assert(earlier[i2] == all[i2]);
            }
        }
        assert forall|i: int| 0 <= i < a.len() implies (#[trigger] all[i] matches Some(j) ==> 0 <= j
            < b.len()) by {
            if i < a.len() - 1 {
                assert(earlier[i] == all[i]);
            }
        }
    }
}

/// Every block of `a` is either matched or left over.
pub proof fn lemma_first_list_partitioned(a: Seq<BlockView>, assignment: Seq<Option<int>>, b: Seq<BlockView>)
    ensures
        matched_of(a, b, assignment).len() + unmatched_first(a, assignment).len()
            == assignment.len(),
    decreases assignment.len(),
{
    if assignment.len() > 0 {
        lemma_first_list_partitioned(a, assignment.drop_last(), b);
    }
}

/// The number of the first `n` blocks that are not in `used`.
pub open spec fn free_count(used: Set<int>, n: int) -> nat
    decreases n,
{
    if n <= 0 {
        0
    } else if used.contains(n - 1) {
        free_count(used, n - 1)
    } else {
        free_count(used, n - 1) + 1
    }
}

proof fn lemma_unmatched_second_len(b: Seq<BlockView>, used: Set<int>, n: int)
    ensures
        unmatched_second(b, used, n).len() == free_count(used, n),
    decreases n,
{
    if n > 0 {
        lemma_unmatched_second_len(b, used, n - 1);
    }
}

proof fn lemma_free_count_none_used(used: Set<int>, n: int)
    requires
        0 <= n,
        forall|j: int| 0 <= j < n ==> !used.contains(j),
    ensures
        free_count(used, n) == n,
    decreases n,
{
    if n > 0 {
        lemma_free_count_none_used(used, n - 1);
    }
}

proof fn lemma_free_count_same(first: Set<int>, second: Set<int>, n: int)
    requires
        forall|j: int| 0 <= j < n ==> first.contains(j) == second.contains(j),
    ensures
        free_count(first, n) == free_count(second, n),
    decreases n,
{
    if n > 0 {
        lemma_free_count_same(first, second, n - 1);
    }
}

proof fn lemma_free_count_take_one(used: Set<int>, more: Set<int>, j: int, n: int)
    requires
        !used.contains(j),
        forall|k: int| 0 <= k < n ==> more.contains(k) == (used.contains(k) || k == j),
    ensures
        0 <= j < n ==> free_count(more, n) + 1 == free_count(used, n),
        !(0 <= j < n) ==> free_count(more, n) == free_count(used, n),
    decreases n,
{
    if n > 0 {
        lemma_free_count_take_one(used, more, j, n - 1);
    }
}

/// The number of entries of an assignment that name a partner.
pub open spec fn partner_count(assignment: Seq<Option<int>>) -> nat
    decreases assignment.len(),
{
    if assignment.len() == 0 {
        0
    } else if assignment.last() is Some {
        partner_count(assignment.drop_last()) + 1
    } else {
        partner_count(assignment.drop_last())
    }
}

proof fn lemma_matched_len(a: Seq<BlockView>, b: Seq<BlockView>, assignment: Seq<Option<int>>)
    ensures
        matched_of(a, b, assignment).len() == partner_count(assignment),
    decreases assignment.len(),
{
    if assignment.len() > 0 {
        lemma_matched_len(a, b, assignment.drop_last());
    }
}

/// The matched pairs and the free blocks of the second list add up to the list.
proof fn lemma_second_list_partitioned(a: Seq<BlockView>, b: Seq<BlockView>)
    ensures
        partner_count(greedy_assignment(a, b)) + free_count(
            taken(greedy_assignment(a, b)),
            b.len() as int,
        ) == b.len(),
    decreases a.len(),
{
    let all = greedy_assignment(a, b);
    if a.len() == 0 {
        lemma_free_count_none_used(taken(all), b.len() as int);
    } else {
        let earlier = greedy_assignment(a.drop_last(), b);
        let last = choose_partner(a.last(), b, taken(earlier));
        lemma_second_list_partitioned(a.drop_last(), b);
        lemma_assignment_shape(a.drop_last(), b);
        assert(all == earlier.push(last));
        assert(all.drop_last() =~= earlier);
        assert forall|k: int| 0 <= k < b.len() implies taken(all).contains(k) == (taken(
            earlier,
        ).contains(k) || last == Some(k)) by {
            lemma_taken_push(earlier, last, k);
        }
        match last {
            Some(j) => {
                assert(is_best_candidate(a.last(), b, taken(earlier), j));
                lemma_free_count_take_one(taken(earlier), taken(all), j, b.len() as int);
            },
            None => {
                lemma_free_count_same(taken(all), taken(earlier), b.len() as int);
            },
        }
    }
}

/// In an alignment every block of the first list is matched or left over, but
/// not both; so is every block of the second list, and none is matched twice.
pub proof fn lemma_alignment_is_one_to_one(a: Seq<BlockView>, b: Seq<BlockView>)
    ensures
        align_spec(a, b).matched.len() + align_spec(a, b).unmatched_a.len() == a.len(),
        align_spec(a, b).matched.len() + align_spec(a, b).unmatched_b.len() == b.len(),
        forall|i1: int, i2: int|
            0 <= i1 < i2 < a.len() && greedy_assignment(a, b)[i1] is Some ==> #[trigger] greedy_assignment(
                a,
                b,
            )[i1] != #[trigger] greedy_assignment(a, b)[i2],
{
    lemma_assignment_shape(a, b);
    lemma_first_list_partitioned(a, greedy_assignment(a, b), b);
    lemma_second_list_partitioned(a, b);
    lemma_matched_len(a, b, greedy_assignment(a, b));
    lemma_unmatched_second_len(b, taken(greedy_assignment(a, b)), b.len() as int);
}

/// Adding an entry to an assignment adds its partner to the taken blocks.
proof fn lemma_taken_push(assignment: Seq<Option<int>>, entry: Option<int>, k: int)
    ensures
        taken(assignment.push(entry)).contains(k) <==> (taken(assignment).contains(k) || entry
            == Some(k)),
{
    let longer = assignment.push(entry);
    if assignment.contains(Some(k)) {
        let i = choose|i: int| 0 <= i < assignment.len() && assignment[i] == Some(k);
        assert(longer[i] == Some(k));
    }
    if entry == Some(k) {
        assert(longer[assignment.len() as int] == Some(k));
    }
    if longer.contains(Some(k)) {
        let i = choose|i: int| 0 <= i < longer.len() && longer[i] == Some(k);
        if i < assignment.len() {
            assert(assignment[i] == Some(k));
        }
    }
}

/// The score of a candidate pair.
fn score_pair(a: &Block, b: &Block) -> (s: i128)
    ensures
        s == pair_score(a@, b@),
{
    let a_box = a.bbox();
    let b_box = b.bbox();
    let iou: u32 = a_box.iou(&b_box);
    let distance: u64 = a_box.center_distance(&b_box);
    let bonus: i128 = if a.block_kind() == b.block_kind() {
        100_000
    } else {
        0
    };
    iou as i128 + bonus - distance as i128
}

/// Finds the first free block with the highest score.
fn find_best_candidate(a: &Block, b_blocks: &[Block], used: &Vec<bool>, Ghost(taken_set): Ghost<
    Set<int>,
>) -> (best: Option<usize>)
    requires
        used@.len() == b_blocks@.len(),
        forall|j: int| 0 <= j < used@.len() ==> used@[j] == taken_set.contains(j),
    ensures
        best matches Some(j) ==> j < b_blocks@.len(),
        match best {
            Some(j) => best_candidate(a@, b_blocks.deep_view(), taken_set) == Some(j as int),
            None => best_candidate(a@, b_blocks.deep_view(), taken_set) is None,
        },
{
    let ghost bs = b_blocks.deep_view();
    let mut best: Option<usize> = None;
    let mut best_score: i128 = 0;
    let mut idx: usize = 0;
    while idx < b_blocks.len()
        invariant
            idx <= b_blocks.len(),
            bs == b_blocks.deep_view(),
            used@.len() == b_blocks@.len(),
            forall|j: int| 0 <= j < used@.len() ==> used@[j] == taken_set.contains(j),
            best is None ==> forall|k: int| 0 <= k < idx ==> taken_set.contains(k),
            best matches Some(j) ==> {
                &&& j < idx
                &&& !taken_set.contains(j as int)
                &&& best_score == pair_score(a@, bs[j as int])
                &&& forall|k: int|
                    0 <= k < idx && !taken_set.contains(k) ==> #[trigger] pair_score(a@, bs[k])
                        <= best_score
                &&& forall|k: int|
                    0 <= k < j && !taken_set.contains(k) ==> #[trigger] pair_score(a@, bs[k])
                        < best_score
            },
        decreases b_blocks.len() - idx,
    {
        if !used[idx] {
            let score: i128 = score_pair(a, &b_blocks[idx]);
            assert(bs[idx as int] == b_blocks@[idx as int]@);
            let better: bool = match best {
                Some(_) => score > best_score,
                None => true,
            };
            if better {
                best_score = score;
                best = Some(idx);
            }
        }
        idx += 1;
    }
    proof {
        match best {
            Some(j) => {
                assert(is_best_candidate(a@, bs, taken_set, j as int));
                let chosen = choose|c: int| is_best_candidate(a@, bs, taken_set, c);
                lemma_best_candidate_unique(a@, bs, taken_set, j as int, chosen);
            },
            None => {
                assert forall|j: int| !is_best_candidate(a@, bs, taken_set, j) by {
                    if 0 <= j < bs.len() {
                        assert(taken_set.contains(j));
                    }
                }
            },
        }
    }
    best
}

/// Matches each block of `a_blocks`, in order, to the free block of `b_blocks`
/// that suits it best, and keeps the match when the boxes lie close enough.
/// A rejected block of `a_blocks` stays unmatched; so does every block of
/// `b_blocks` that nobody took.
pub fn align_blocks(a_blocks: &[Block], b_blocks: &[Block]) -> (result: AlignmentResult)
    ensures
        result@ == align_spec(a_blocks.deep_view(), b_blocks.deep_view()),
        result.matched@.len() + result.unmatched_a@.len() == a_blocks@.len(),
        result.matched@.len() + result.unmatched_b@.len() == b_blocks@.len(),
{
    let ghost a_views = a_blocks.deep_view();
    let ghost b_views = b_blocks.deep_view();
    let mut matched: Vec<MatchedPair> = Vec::new();
    let mut unmatched_a: Vec<Block> = Vec::new();
    let mut used: Vec<bool> = Vec::new();
    let mut n: usize = 0;
    while n < b_blocks.len()
        invariant
            n <= b_blocks.len(),
            used@.len() == n,
            forall|j: int| 0 <= j < n ==> !used@[j],
        decreases b_blocks.len() - n,
    {
        used.push(false);
        n += 1;
    }
    let ghost mut assignment: Seq<Option<int>> = Seq::empty();
    let mut i: usize = 0;
    assert(a_views.take(0) =~= Seq::<BlockView>::empty());
    while i < a_blocks.len()
        invariant
            i <= a_blocks.len(),
            a_views == a_blocks.deep_view(),
            b_views == b_blocks.deep_view(),
            used@.len() == b_blocks@.len(),
            assignment == greedy_assignment(a_views.take(i as int), b_views),
            assignment.len() == i,
            forall|j: int| 0 <= j < used@.len() ==> used@[j] == taken(assignment).contains(j),
            matched.deep_view() == matched_of(a_views, b_views, assignment),
            unmatched_a.deep_view() == unmatched_first(a_views, assignment),
        decreases a_blocks.len() - i,
    {
        let a = &a_blocks[i];
        let ghost earlier = assignment;
        let ghost matched_before = matched.deep_view();
        let ghost unmatched_before = unmatched_a.deep_view();
        let best = find_best_candidate(a, b_blocks, &used, Ghost(taken(earlier)));
        assert(a_views[i as int] == a@);
        let mut partner: Option<usize> = None;
        if let Some(j) = best {
            let b = &b_blocks[j];
            assert(b_views[j as int] == b@);
            let iou: u32 = a.bbox().iou(&b.bbox());
            let distance: u64 = a.bbox().center_distance(&b.bbox());
            if iou > 100_000 || distance < 15_000 {
                used[j] = true;
                matched.push(MatchedPair { a: a.duplicate(), b: b.duplicate(), iou, center_distance: distance });
                partner = Some(j);
                proof {
                    assert(matched.deep_view() =~= matched_before.push(pair_of(a@, b@)));
                }
            }
        }
        if partner.is_none() {
            unmatched_a.push(a.duplicate());
            proof {
                assert(unmatched_a.deep_view() =~= unmatched_before.push(a@));
            }
        }
        proof {
            let entry: Option<int> = match partner {
                Some(j) => Some(j as int),
                None => None,
            };
            assert(entry == choose_partner(a@, b_views, taken(earlier)));
            assert(a_views.take(i + 1).drop_last() =~= a_views.take(i as int));
            assert(a_views.take(i + 1).last() == a@);
            assignment = earlier.push(entry);
            assert(assignment.drop_last() =~= earlier);
            assert forall|j: int| 0 <= j < used@.len() implies used@[j] == taken(assignment).contains(
                j,
            ) by {
                lemma_taken_push(earlier, entry, j);
            }
        }
        i += 1;
    }
    assert(a_views.take(a_blocks@.len() as int) =~= a_views);
    let mut unmatched_b: Vec<Block> = Vec::new();
    let mut k: usize = 0;
    while k < b_blocks.len()
        invariant
            k <= b_blocks.len(),
            b_views == b_blocks.deep_view(),
            used@.len() == b_blocks@.len(),
            forall|j: int| 0 <= j < used@.len() ==> used@[j] == taken(assignment).contains(j),
            unmatched_b.deep_view() == unmatched_second(b_views, taken(assignment), k as int),
        decreases b_blocks.len() - k,
    {
        if !used[k] {
            let ghost before = unmatched_b.deep_view();
            unmatched_b.push(b_blocks[k].duplicate());
            assert(unmatched_b.deep_view() =~= before.push(b_blocks@[k as int]@));
        }
        k += 1;
    }
    proof {
        lemma_alignment_is_one_to_one(a_views, b_views);
    }
    AlignmentResult { matched, unmatched_a, unmatched_b }
}

} // verus!
