//! Exclusion expressions: wildcard patterns over path text.
//!
//! The only metacharacter is `*`, which stands for any run of bytes, the
//! empty one included. An expression is taken apart once, when it is made,
//! into the literal segments between its wildcards.

use vstd::prelude::*;
use vstd::string::StrSliceExecFns;
use crate::text::occurs_at;
use crate::text::contains_bytes;
use crate::text::has_prefix;
use crate::text::has_suffix;
use crate::text::bytes_equal;
use crate::text::find_from;
use crate::text::starts_with_bytes;
use crate::text::ends_with_bytes;
use crate::text::utf8;

verus! {

/// The wildcard, `*`.
pub const WILDCARD: u8 = 42u8;

/// The literal segments of an expression, in order: its maximal runs of
/// bytes that hold no wildcard.
pub open spec fn segments(expression: Seq<u8>) -> Seq<Seq<u8>>
    decreases expression.len(),
{
    if expression.len() == 0 {
        Seq::empty()
    } else {
        let before = segments(expression.drop_last());
        let byte = expression.last();
        if byte == WILDCARD {
            before
        } else if expression.len() >= 2 && expression[expression.len() - 2] != WILDCARD {
            before.drop_last().push(before.last().push(byte))
        } else {
            before.push(seq![byte])
        }
    }
}

/// The segments from the `k`-th on stand in `path` one after another, none
/// before `from` and none overlapping the one before it.
pub open spec fn chain_from(path: Seq<u8>, segs: Seq<Seq<u8>>, k: int, from: int) -> bool
    decreases segs.len() - k,
{
    if k < 0 || k >= segs.len() {
        true
    } else {
        exists|at: int|
            from <= at && #[trigger] occurs_at(path, segs[k], at) && chain_from(
                path,
                segs,
                k + 1,
                at + segs[k].len(),
            )
    }
}

/// What it means for an expression to match a path.
///
/// An expression without a literal segment matches everything. Any other
/// matches when its segments stand in the path in order without overlap,
/// the path begins with the first segment unless the expression begins with
/// a wildcard, and the path ends with the last segment unless the
/// expression ends with a wildcard.
pub open spec fn pattern_matches(expression: Seq<u8>, path: Seq<u8>) -> bool {
    let segs = segments(expression);
    segs.len() == 0 || {
        &&& chain_from(path, segs, 0, 0)
        &&& expression.first() != WILDCARD ==> has_prefix(path, segs.first())
        &&& expression.last() != WILDCARD ==> has_suffix(path, segs.last())
    }
}

/// The expression holds no wildcard.
pub open spec fn wildcard_free(expression: Seq<u8>) -> bool {
    forall|i: int| 0 <= i < expression.len() ==> expression[i] != WILDCARD
}

/// Segments are never empty and hold no wildcard, and there is one exactly
/// when the expression has a byte that is no wildcard.
pub proof fn lemma_segments_shape(expression: Seq<u8>)
    ensures
        forall|i: int|
            0 <= i < segments(expression).len() ==> (#[trigger] segments(expression)[i]).len() > 0
                && wildcard_free(segments(expression)[i]),
        expression.len() > 0 && expression.last() != WILDCARD ==> segments(expression).len() > 0,
        segments(expression).len() > 0 ==> expression.len() > 0,
    decreases expression.len(),
{
    if expression.len() > 0 {
        lemma_segments_shape(expression.drop_last());
        let before = segments(expression.drop_last());
        let byte = expression.last();
        if byte != WILDCARD && expression.len() >= 2 && expression[expression.len() - 2]
            != WILDCARD {
            assert(expression.drop_last().last() == expression[expression.len() - 2]);
            let grown = before.last().push(byte);
            assert forall|j: int| 0 <= j < grown.len() implies grown[j] != WILDCARD by {
                if j < before.last().len() {
                    assert(grown[j] == before.last()[j]);
                }
            }
        }
    }
}

/// An expression without wildcards is its own single segment.
pub proof fn lemma_segments_of_literal(expression: Seq<u8>)
    requires
        wildcard_free(expression),
        expression.len() > 0,
    ensures
        segments(expression) == seq![expression],
    decreases expression.len(),
{
    let shorter = expression.drop_last();
    if expression.len() == 1 {
        assert(segments(shorter) =~= Seq::<Seq<u8>>::empty());
        assert(seq![expression.last()] =~= expression);
        assert(segments(expression) =~= seq![expression]);
    } else {
        assert(wildcard_free(shorter)) by {
            assert forall|i: int| 0 <= i < shorter.len() implies shorter[i] != WILDCARD by {
                assert(shorter[i] == expression[i]);
            }
        }
        lemma_segments_of_literal(shorter);
        assert(shorter.push(expression.last()) =~= expression);
        assert(segments(expression) =~= seq![expression]);
    }
}

/// A chain that may start at `from` may start anywhere before it too.
pub proof fn lemma_chain_from_earlier(
    path: Seq<u8>,
    segs: Seq<Seq<u8>>,
    k: int,
    from: int,
    earlier: int,
)
    requires
        chain_from(path, segs, k, from),
        earlier <= from,
    ensures
        chain_from(path, segs, k, earlier),
{
    if 0 <= k < segs.len() {
        let at = choose|at: int|
            from <= at && #[trigger] occurs_at(path, segs[k], at) && chain_from(
                path,
                segs,
                k + 1,
                at + segs[k].len(),
            );
        assert(earlier <= at && occurs_at(path, segs[k], at));
    }
}

/// Taking the first place where a segment stands loses nothing: the rest of
/// the chain fits behind some place exactly when it fits behind the first.
pub proof fn lemma_chain_from_first(
    path: Seq<u8>,
    segs: Seq<Seq<u8>>,
    k: int,
    from: int,
    first: int,
)
    requires
        0 <= k < segs.len(),
        from <= first,
        occurs_at(path, segs[k], first),
        forall|at: int| from <= at < first ==> !occurs_at(path, segs[k], at),
    ensures
        chain_from(path, segs, k, from) == chain_from(path, segs, k + 1, first + segs[k].len()),
{
    if chain_from(path, segs, k, from) {
        let at = choose|at: int|
            from <= at && #[trigger] occurs_at(path, segs[k], at) && chain_from(
                path,
                segs,
                k + 1,
                at + segs[k].len(),
            );
        lemma_chain_from_earlier(path, segs, k + 1, at + segs[k].len(), first + segs[k].len());
    }
}

/// Where a chain exists, each of its segments stands somewhere in the path.
pub proof fn lemma_chain_segments_occur(
    path: Seq<u8>,
    segs: Seq<Seq<u8>>,
    k: int,
    from: int,
    i: int,
)
    requires
        chain_from(path, segs, k, from),
        0 <= k <= i < segs.len(),
    ensures
        contains_bytes(path, segs[i]),
    decreases i - k,
{
    let at = choose|at: int|
        from <= at && #[trigger] occurs_at(path, segs[k], at) && chain_from(
            path,
            segs,
            k + 1,
            at + segs[k].len(),
        );
    if i > k {
        lemma_chain_segments_occur(path, segs, k + 1, at + segs[k].len(), i);
    }
}

/// The single wildcard matches every path, the empty one too.
pub proof fn lemma_wildcard_matches_all(path: Seq<u8>)
    ensures
        pattern_matches(seq![WILDCARD], path),
{
    let e = seq![WILDCARD];
    assert(e.drop_last() =~= Seq::<u8>::empty());
    assert(segments(e.drop_last()).len() == 0);
    assert(segments(e).len() == 0);
}

/// The expression written `*` matches the text of every path.
pub proof fn lemma_star_matches_all(path: Seq<char>)
    ensures
        pattern_matches(utf8("*"@), utf8(path)),
{
    reveal_strlit("*");
    let star = "*"@;
    assert(star.len() == 1 && star[0] == '*');
    assert(vstd::utf8::is_ascii_chars(star));
    vstd::utf8::is_ascii_chars_encode_utf8(star);
    assert(utf8(star) =~= seq![WILDCARD]);
    lemma_wildcard_matches_all(utf8(path));
}

/// An expression does not match a path that lacks one of its segments.
pub proof fn lemma_missing_segment_rejects(expression: Seq<u8>, path: Seq<u8>, i: int)
    requires
        0 <= i < segments(expression).len(),
        !contains_bytes(path, segments(expression)[i]),
    ensures
        !pattern_matches(expression, path),
{
    let segs = segments(expression);
    if chain_from(path, segs, 0, 0) {
        lemma_chain_segments_occur(path, segs, 0, 0, i);
    }
}

/// An expression with one literal segment and a wildcard at either end
/// asks for no more than that the segment stands somewhere in the path,
/// however many wildcards it is written with.
pub proof fn lemma_single_segment_is_containment(expression: Seq<u8>, path: Seq<u8>)
    requires
        segments(expression).len() == 1,
        expression.first() == WILDCARD,
        expression.last() == WILDCARD,
    ensures
        pattern_matches(expression, path) == contains_bytes(path, segments(expression)[0]),
{
    let segs = segments(expression);
    if contains_bytes(path, segs[0]) {
        let at = choose|at: int| occurs_at(path, segs[0], at);
        assert(0 <= at && occurs_at(path, segs[0], at) && chain_from(
            path,
            segs,
            1,
            at + segs[0].len(),
        ));
    }
    if chain_from(path, segs, 0, 0) {
        lemma_chain_segments_occur(path, segs, 0, 0, 0);
    }
}

/// An expression without wildcards matches exactly the paths that both
/// begin and end with it.
pub proof fn lemma_literal_matches_anchored(expression: Seq<u8>, path: Seq<u8>)
    requires
        wildcard_free(expression),
        expression.len() > 0,
    ensures
        pattern_matches(expression, path) == (has_prefix(path, expression) && has_suffix(
            path,
            expression,
        )),
{
    lemma_segments_of_literal(expression);
    let segs = segments(expression);
    assert(segs.first() == expression && segs.last() == expression);
    if has_prefix(path, expression) {
        assert(occurs_at(path, segs[0], 0));
        assert(chain_from(path, segs, 1, segs[0].len() as int));
        assert(chain_from(path, segs, 0, 0));
    }
}

/// An expression without wildcards matches a path exactly when the two are
/// equal, but for the paths that begin and end with the expression and hold
/// more than it.
pub proof fn lemma_literal_matches_equal(expression: Seq<u8>, path: Seq<u8>)
    requires
        wildcard_free(expression),
        !(has_prefix(path, expression) && has_suffix(path, expression) && path != expression),
    ensures
        pattern_matches(expression, path) == (path == expression),
{
    if expression.len() == 0 {
        assert(has_prefix(path, expression));
        assert(has_suffix(path, expression));
        assert(segments(expression).len() == 0);
    } else {
        lemma_literal_matches_anchored(expression, path);
        if path == expression {
            crate::text::lemma_occurs_in_itself(path);
        }
    }
}

/// The byte strings that a list of buffers holds.
pub open spec fn contents(list: Seq<Vec<u8>>) -> Seq<Seq<u8>> {
    Seq::new(list.len(), |i: int| list[i]@)
}

/// One exclusion expression, taken apart for matching.
pub struct SingleExcludedItem {
    expression: Vec<u8>,
    expression_splits: Vec<Vec<u8>>,
    unique_extensions_splits: Vec<Vec<u8>>,
}

impl SingleExcludedItem {
    /// The bytes of the expression as it was written.
    pub closed spec fn expression(&self) -> Seq<u8> {
        self.expression@
    }

    /// The literal segments, in order and with repetitions.
    pub closed spec fn splits(&self) -> Seq<Seq<u8>> {
        contents(self.expression_splits@)
    }

    /// The distinct literal segments, each once.
    pub closed spec fn unique_splits(&self) -> Seq<Seq<u8>> {
        contents(self.unique_extensions_splits@)
    }

    /// The parts agree with the expression they were taken from.
    #[verifier::type_invariant]
    pub closed spec fn well_formed(&self) -> bool {
        &&& self.splits() == segments(self.expression@)
        &&& self.unique_splits().no_duplicates()
        &&& forall|u: Seq<u8>| self.unique_splits().contains(u) <==> self.splits().contains(u)
    }

    /// Tells whether the expression matches `path`, the bytes of a path's
    /// text.
    pub fn matches(&self, path: &[u8]) -> (r: bool)
        ensures
            r == pattern_matches(self.expression(), path@),
    {
        proof {
            use_type_invariant(self);
        }
        let ghost segs = segments(self.expression@);
        let count: usize = self.expression_splits.len();
        if count == 0 {
            return true;
        }
        // A cheap rejection: every distinct segment has to stand somewhere.

        let mut u: usize = 0;
        while u < self.unique_extensions_splits.len()
            invariant
                u <= self.unique_extensions_splits.len(),
                self.well_formed(),
                segs == segments(self.expression@),
            decreases self.unique_extensions_splits.len() - u,
        {
            if find_from(path, self.unique_extensions_splits[u].as_slice(), 0).is_none() {
                proof {
                    let needle = self.unique_extensions_splits@[u as int]@;
                    assert(self.unique_splits()[u as int] == needle);
                    assert(self.unique_splits().contains(needle));
                    assert(self.splits().contains(needle));
                    let i = choose|i: int| 0 <= i < segs.len() && segs[i] == needle;
                    assert(!contains_bytes(path@, segs[i]));
                    lemma_missing_segment_rejects(self.expression@, path@, i);
                }
                return false;
            }
            u += 1;
        }
        proof {
            lemma_segments_shape(self.expression@);
            assert(self.splits()[0] == self.expression_splits@[0]@);
            assert(self.splits()[count - 1] == self.expression_splits@[count - 1]@);
        }
        if self.expression[0] != WILDCARD && !starts_with_bytes(
            path,
            self.expression_splits[0].as_slice(),
        ) {
            return false;
        }
        if self.expression[self.expression.len() - 1] != WILDCARD && !ends_with_bytes(
            path,
            self.expression_splits[count - 1].as_slice(),
        ) {
            return false;
        }
        // The segments have to follow one another without overlap.

        let length: usize = path.len();
        let mut k: usize = 0;
        let mut cursor: usize = 0;
        while k < count
            invariant
                k <= count,
                length == path@.len(),
                count == self.expression_splits.len(),
                self.well_formed(),
                segs == segments(self.expression@),
                count == segs.len(),
                chain_from(path@, segs, 0, 0) == chain_from(path@, segs, k as int, cursor as int),
            decreases count - k,
        {
            assert(self.splits()[k as int] == self.expression_splits@[k as int]@);
            let segment = self.expression_splits[k].as_slice();
            match find_from(path, segment, cursor) {
                None => {
                    assert(!chain_from(path@, segs, k as int, cursor as int));
                    return false;
                },
                Some(at) => {
                    proof {
                        lemma_chain_from_first(path@, segs, k as int, cursor as int, at as int);
                        assert(at + segment@.len() <= path@.len());
                    }
                    cursor = at + segment.len();
                },
            }
            k += 1;
        }
        true
    }
}

/// Tells whether `needle` is among `list`.
fn holds_segment(list: &Vec<Vec<u8>>, needle: &Vec<u8>) -> (r: bool)
    ensures
        r == exists|i: int| 0 <= i < list@.len() && list@[i]@ == needle@,
{
    let mut i: usize = 0;
    while i < list.len()
        invariant
            i <= list.len(),
            forall|j: int| 0 <= j < i ==> list@[j]@ != needle@,
        decreases list.len() - i,
    {
        if bytes_equal(list[i].as_slice(), needle.as_slice()) {
            return true;
        }
        i += 1;
    }
    false
}

/// Takes an expression apart into its literal segments.
///
/// `splits[i]` are the segments of the bytes read so far, in order.
fn split_expression(expression: &Vec<u8>) -> (splits: Vec<Vec<u8>>)
    ensures
        splits@.len() == segments(expression@).len(),
        forall|i: int| 0 <= i < splits@.len() ==> (#[trigger] splits@[i])@ == segments(expression@)[i],
{
    let mut splits: Vec<Vec<u8>> = Vec::new();
    let mut current: Vec<u8> = Vec::new();
    let mut i: usize = 0;
    while i < expression.len()
        invariant
            i <= expression.len(),
            current@.len() > 0 <==> (i > 0 && expression@[i - 1] != WILDCARD),
            current@.len() == 0 ==> splits@.len() == segments(expression@.take(i as int)).len(),
            current@.len() > 0 ==> splits@.len() + 1 == segments(expression@.take(i as int)).len()
                && segments(expression@.take(i as int)).last() == current@,
            forall|j: int|
                0 <= j < splits@.len() ==> (#[trigger] splits@[j])@ == segments(
                    expression@.take(i as int),
                )[j],
        decreases expression.len() - i,
    {
        let byte = expression[i];
        proof {
            let read = expression@.take(i as int + 1);
            assert(read.drop_last() =~= expression@.take(i as int));
            assert(read.last() == byte);
            if i > 0 {
                assert(read[read.len() - 2] == expression@[i - 1]);
            }
        }
        if byte == WILDCARD {
            if current.len() > 0 {
                splits.push(current);
                current = Vec::new();
            }
        } else {
            current.push(byte);
        }
        i += 1;
    }
    proof {
        assert(expression@.take(i as int) =~= expression@);
    }
    if current.len() > 0 {
        splits.push(current);
    }
    splits
}

/// Makes an exclusion item from the text of an expression.
pub fn new_excluded_item(expression: &str) -> (item: SingleExcludedItem)
    ensures
        item.expression() == utf8(expression@),
{
    let bytes = expression.as_bytes_vec();
    let splits = split_expression(&bytes);
    let mut unique: Vec<Vec<u8>> = Vec::new();
    let mut i: usize = 0;
    while i < splits.len()
        invariant
            i <= splits.len(),
            forall|a: int, b: int|
                0 <= a < b < unique@.len() ==> (#[trigger] unique@[a])@ != (#[trigger] unique@[b])@,
            forall|a: int|
                0 <= a < unique@.len() ==> exists|j: int|
                    0 <= j < i && splits@[j]@ == (#[trigger] unique@[a])@,
            forall|j: int|
                0 <= j < i ==> exists|a: int|
                    0 <= a < unique@.len() && unique@[a]@ == (#[trigger] splits@[j])@,
        decreases splits.len() - i,
    {
        if !holds_segment(&unique, &splits[i]) {
            let ghost before = unique@;
            unique.push(splits[i].clone());
            proof {
                assert(unique@[unique@.len() - 1]@ == splits@[i as int]@);
                assert forall|j: int| 0 <= j < i + 1 implies exists|a: int|
                    0 <= a < unique@.len() && unique@[a]@ == (#[trigger] splits@[j])@ by {
                    if j < i {
                        let a = choose|a: int|
                            0 <= a < before.len() && before[a]@ == splits@[j]@;
                        assert(unique@[a]@ == splits@[j]@);
                    } else {
                        assert(unique@[unique@.len() - 1]@ == splits@[j]@);
                    }
                }
            }
        }
        i += 1;
    }
    proof {
        let all = contents(splits@);
        let distinct = contents(unique@);
        assert(all =~= segments(bytes@));
        assert(distinct.no_duplicates());
        assert forall|u: Seq<u8>| distinct.contains(u) <==> all.contains(u) by {
            if distinct.contains(u) {
                let a = choose|a: int| 0 <= a < distinct.len() && distinct[a] == u;
                let j = choose|j: int| 0 <= j < splits@.len() && splits@[j]@ == unique@[a]@;
                assert(all[j] == u);
            }
            if all.contains(u) {
                let j = choose|j: int| 0 <= j < all.len() && all[j] == u;
                let a = choose|a: int| 0 <= a < unique@.len() && unique@[a]@ == splits@[j]@;
                assert(distinct[a] == u);
            }
        }
    }
    let item = SingleExcludedItem {
        expression: bytes,
        expression_splits: splits,
        unique_extensions_splits: unique,
    };
    item
}

/// The exclusion expressions of a scan.
pub struct ExcludedItems {
    items: Vec<SingleExcludedItem>,
}

impl ExcludedItems {
    /// The bytes of each expression, in the order they were added.
    pub closed spec fn expressions(&self) -> Seq<Seq<u8>> {
        Seq::new(self.items@.len(), |i: int| self.items@[i].expression())
    }

    /// Some expression matches `path`.
    pub open spec fn excludes(&self, path: Seq<u8>) -> bool {
        exists|i: int|
            0 <= i < self.expressions().len() && pattern_matches(
                #[trigger] self.expressions()[i],
                path,
            )
    }

    /// A set without expressions, which excludes nothing.
    pub fn new() -> (r: Self)
        ensures
            r.expressions() == Seq::<Seq<u8>>::empty(),
    {
        let r = ExcludedItems { items: Vec::new() };
        assert(r.expressions() =~= Seq::<Seq<u8>>::empty());
        r
    }

    /// Adds one expression.
    pub fn add(&mut self, expression: &str)
        ensures
            final(self).expressions() == old(self).expressions().push(utf8(expression@)),
    {
        let item = new_excluded_item(expression);
        self.items.push(item);
        assert(self.expressions() =~= old(self).expressions().push(utf8(expression@)));
    }

    /// The number of expressions.
    pub fn len(&self) -> (n: usize)
        ensures
            n == self.expressions().len(),
    {
        self.items.len()
    }

    /// Tells whether some expression matches the text of `path`.
    pub fn is_excluded(&self, path: &str) -> (r: bool)
        ensures
            r == self.excludes(utf8(path@)),
    {
        let bytes = path.as_bytes();
        let mut i: usize = 0;
        while i < self.items.len()
            invariant
                i <= self.items.len(),
                bytes@ == utf8(path@),
                forall|j: int|
                    0 <= j < i ==> !pattern_matches(#[trigger] self.expressions()[j], utf8(path@)),
            decreases self.items.len() - i,
        {
            if self.items[i].matches(bytes) {
                assert(pattern_matches(self.expressions()[i as int], utf8(path@)));
                return true;
            }
            i += 1;
        }
        false
    }
}

} // verus!
