use vstd::prelude::*;

verus! {

/// An edit as a mathematical value: at char index `start`, the chars `old`
/// give way to the chars `new`.
pub struct Edit {
    pub start: int,
    pub old: Seq<char>,
    pub new: Seq<char>,
}

/// `text` with the `len` chars from `start` on replaced by `inserted`.
pub open spec fn splice(text: Seq<char>, start: int, len: int, inserted: Seq<char>) -> Seq<char> {
    text.take(start) + inserted + text.skip(start + len)
}

impl Edit {
    /// The chars that the edit replaces lie within `text`.
    pub open spec fn fits(self, text: Seq<char>) -> bool {
        0 <= self.start && self.start + self.old.len() <= text.len()
    }

    /// The edit's reverse lies within `text`: its new chars fit there.
    pub open spec fn reverse_fits(self, text: Seq<char>) -> bool {
        0 <= self.start && self.start + self.new.len() <= text.len()
    }

    /// `text` holds the edit's old chars at its start.
    pub open spec fn matches(self, text: Seq<char>) -> bool {
        &&& self.fits(text)
        &&& text.subrange(self.start, self.start + self.old.len()) == self.old
    }

    /// What `text` becomes when the edit is made: as many chars as `old`
    /// holds are removed at `start`, and `new` is put in their place.
    pub open spec fn apply_to(self, text: Seq<char>) -> Seq<char> {
        splice(text, self.start, self.old.len() as int, self.new)
    }

    /// What `text` becomes when the edit is taken back: as many chars as
    /// `new` holds are removed at `start`, and `old` is put in their place.
    pub open spec fn revert_in(self, text: Seq<char>) -> Seq<char> {
        splice(text, self.start, self.new.len() as int, self.old)
    }
}

/// A change of the text, recorded in the undo and redo history: at char
/// index `start_char`, `old_text` was replaced by `new_text`.
#[derive(Clone, Debug)]
pub struct TextChange {
    pub start_char: usize,
    pub old_text: String,
    pub new_text: String,
}

impl View for TextChange {
    type V = Edit;

    open spec fn view(&self) -> Edit {
        Edit { start: self.start_char as int, old: self.old_text@, new: self.new_text@ }
    }
}

impl TextChange {
    /// A copy of the change, with the same position and texts.
    pub fn duplicate(&self) -> (copy: TextChange)
        ensures
            copy@ == self@,
    {
        TextChange {
            start_char: self.start_char,
            old_text: self.old_text.clone(),
            new_text: self.new_text.clone(),
        }
    }
}

/// `p` is the length of the longest common prefix of `a` and `b`.
pub open spec fn is_common_prefix_len(a: Seq<char>, b: Seq<char>, p: int) -> bool {
    &&& 0 <= p <= a.len()
    &&& p <= b.len()
    &&& a.take(p) == b.take(p)
    &&& (p == a.len() || p == b.len() || a[p] != b[p])
}

/// `q` is the length of the longest common suffix of `a` and `b` that does
/// not reach into their first `p` chars.
pub open spec fn is_common_suffix_len(a: Seq<char>, b: Seq<char>, p: int, q: int) -> bool {
    &&& 0 <= q
    &&& p + q <= a.len()
    &&& p + q <= b.len()
    &&& a.skip(a.len() - q) == b.skip(b.len() - q)
    &&& (p + q == a.len() || p + q == b.len() || a[a.len() - 1 - q] != b[b.len() - 1 - q])
}

/// `e` is the edit that turns `a` into `b` by keeping their longest common
/// prefix and, after it, their longest common suffix, and replacing what
/// lies between.
pub open spec fn is_minimal_edit(a: Seq<char>, b: Seq<char>, e: Edit) -> bool {
    let p = e.start;
    let q = a.len() - p - e.old.len();
    &&& is_common_prefix_len(a, b, p)
    &&& is_common_suffix_len(a, b, p, q)
    &&& e.old == a.subrange(p, a.len() - q)
    &&& e.new == b.subrange(p, b.len() - q)
}

/// Two texts have one longest common prefix.
pub proof fn lemma_common_prefix_len_unique(a: Seq<char>, b: Seq<char>, p1: int, p2: int)
    requires
        is_common_prefix_len(a, b, p1),
        is_common_prefix_len(a, b, p2),
    ensures
        p1 == p2,
{
    if p1 < p2 {
        assert(a.take(p2)[p1] == b.take(p2)[p1]);
    }
    if p2 < p1 {
        assert(a.take(p1)[p2] == b.take(p1)[p2]);
    }
}

/// After a given prefix, two texts have one longest common suffix.
pub proof fn lemma_common_suffix_len_unique(a: Seq<char>, b: Seq<char>, p: int, q1: int, q2: int)
    requires
        0 <= p,
        is_common_suffix_len(a, b, p, q1),
        is_common_suffix_len(a, b, p, q2),
    ensures
        q1 == q2,
{
    if q1 < q2 {
        assert(a.skip(a.len() - q2)[q2 - 1 - q1] == b.skip(b.len() - q2)[q2 - 1 - q1]);
        assert(a.skip(a.len() - q2)[q2 - 1 - q1] == a[a.len() - 1 - q1]);
        assert(b.skip(b.len() - q2)[q2 - 1 - q1] == b[b.len() - 1 - q1]);
    }
    if q2 < q1 {
        assert(a.skip(a.len() - q1)[q1 - 1 - q2] == b.skip(b.len() - q1)[q1 - 1 - q2]);
        assert(a.skip(a.len() - q1)[q1 - 1 - q2] == a[a.len() - 1 - q2]);
        assert(b.skip(b.len() - q1)[q1 - 1 - q2] == b[b.len() - 1 - q2]);
    }
}

/// There is one minimal edit between two texts, so the contract of
/// `compute_delta` determines its result.
pub proof fn lemma_minimal_edit_unique(a: Seq<char>, b: Seq<char>, e1: Edit, e2: Edit)
    requires
        is_minimal_edit(a, b, e1),
        is_minimal_edit(a, b, e2),
    ensures
        e1 == e2,
{
    lemma_common_prefix_len_unique(a, b, e1.start, e2.start);
    lemma_common_suffix_len_unique(
        a,
        b,
        e1.start,
        a.len() - e1.start - e1.old.len(),
        a.len() - e2.start - e2.old.len(),
    );
}

/// The minimal edit keeps the longest common prefix of the two texts and,
/// after it, their longest common suffix: the kept parts agree, no longer
/// prefix agrees, no longer suffix (not reaching into the prefix) agrees,
/// and the edit's old and new chars are exactly what lies between.
pub proof fn law_minimal_edit_keeps_longest(a: Seq<char>, b: Seq<char>, e: Edit)
    requires
        is_minimal_edit(a, b, e),
    ensures
        0 <= e.start <= a.len(),
        e.start <= b.len(),
        a.take(e.start) == b.take(e.start),
        forall|k: int| e.start < k <= a.len() && k <= b.len() ==> #[trigger] a.take(k) != b.take(k),
        ({
            let q = a.len() - e.start - e.old.len();
            &&& 0 <= q
            &&& e.start + q <= a.len()
            &&& e.start + q <= b.len()
            &&& a.skip(a.len() - q) == b.skip(b.len() - q)
            &&& forall|r: int|
                q < r && e.start + r <= a.len() && e.start + r <= b.len() ==> #[trigger] a.skip(
                    a.len() - r,
                ) != b.skip(b.len() - r)
            &&& e.old == a.subrange(e.start, a.len() - q)
            &&& e.new == b.subrange(e.start, b.len() - q)
        }),
{
    let p = e.start;
    let q = a.len() - p - e.old.len();
    assert forall|k: int| p < k <= a.len() && k <= b.len() implies #[trigger] a.take(k) != b.take(
        k,
    ) by {
        if a.take(k) == b.take(k) {
            assert(a.take(k)[p] == b.take(k)[p]);
        }
    }
    assert forall|r: int| q < r && p + r <= a.len() && p + r <= b.len() implies #[trigger] a.skip(
        a.len() - r,
    ) != b.skip(b.len() - r) by {
        if a.skip(a.len() - r) == b.skip(b.len() - r) {
            assert(a.skip(a.len() - r)[r - 1 - q] == b.skip(b.len() - r)[r - 1 - q]);
            assert(a.skip(a.len() - r)[r - 1 - q] == a[a.len() - 1 - q]);
            assert(b.skip(b.len() - r)[r - 1 - q] == b[b.len() - 1 - q]);
        }
    }
}

/// The minimal edit from `a` to `b` finds its old chars in `a`, turns `a`
/// into `b`, fits in `b` the other way round, and taken back in `b` gives
/// `a` again.
pub proof fn lemma_minimal_edit_rebuilds(a: Seq<char>, b: Seq<char>, e: Edit)
    requires
        is_minimal_edit(a, b, e),
    ensures
        e.matches(a),
        e.apply_to(a) == b,
        e.reverse_fits(b),
        e.revert_in(b) == a,
{
    let p = e.start;
    let q = a.len() - p - e.old.len();
    assert(a =~= a.take(p) + e.old + a.skip(a.len() - q));
    assert(b =~= b.take(p) + e.new + b.skip(b.len() - q));
    assert(e.apply_to(a) =~= b);
    assert(e.revert_in(b) =~= a);
}

/// The minimal edit between two different texts changes something: its old
/// and new chars differ. Between a text and itself it is empty, at the end
/// of the text.
pub proof fn lemma_minimal_edit_nonempty(a: Seq<char>, b: Seq<char>, e: Edit)
    requires
        is_minimal_edit(a, b, e),
    ensures
        a != b ==> e.old != e.new,
        a == b ==> e.old.len() == 0 && e.new.len() == 0 && e.start == a.len(),
{
    lemma_minimal_edit_rebuilds(a, b, e);
    if a == b {
        if e.start < a.len() {
            assert(a[e.start] == b[e.start]);
        }
        let q = a.len() - e.start - e.old.len();
        if e.start + q < a.len() {
            assert(a[a.len() - 1 - q] == b[b.len() - 1 - q]);
        }
    } else {
        if e.old == e.new {
            assert(e.apply_to(a) =~= a);
        }
    }
}

/// Taking an edit back right after making it restores the text, provided
/// the text held the edit's old chars where the edit was made.
pub proof fn lemma_revert_after_apply(text: Seq<char>, e: Edit)
    requires
        e.matches(text),
    ensures
        e.reverse_fits(e.apply_to(text)),
        e.revert_in(e.apply_to(text)) == text,
{
    let t = e.apply_to(text);
    assert(t.take(e.start) =~= text.take(e.start));
    assert(t.skip(e.start + e.new.len()) =~= text.skip(e.start + e.old.len()));
    assert(text =~= text.take(e.start) + e.old + text.skip(e.start + e.old.len()));
}

/// Making an edit again right after taking it back gives the edited text
/// once more: the text after taking it back holds the edit's old chars at
/// its start.
pub proof fn lemma_apply_after_revert(text: Seq<char>, e: Edit)
    requires
        e.matches(text),
    ensures
        e.matches(e.revert_in(e.apply_to(text))),
        e.apply_to(e.revert_in(e.apply_to(text))) == e.apply_to(text),
{
    lemma_revert_after_apply(text, e);
}

/// `String::push`: appends one char.
#[verifier::external_body]
pub(crate) fn string_push(s: &mut String, c: char)
    ensures
        final(s)@ == old(s)@.push(c),
{
    s.push(c)
}

/// The chars of `s`, in order, in a vector.
fn chars_of(s: &str) -> (chars: Vec<char>)
    ensures
        chars@ == s@,
{
    let mut chars: Vec<char> = Vec::new();
    for c in it: s.chars()
        invariant
            chars@ == it.seq().take(it.index() as int),
    {
        chars.push(c);
    }
    chars
}

/// A string holding `chars[from..to]`.
fn string_of(chars: &Vec<char>, from: usize, to: usize) -> (s: String)
    requires
        from <= to <= chars@.len(),
    ensures
        s@ == chars@.subrange(from as int, to as int),
{
    let mut s = String::new();
    let mut i = from;
    while i < to
        invariant
            from <= i <= to <= chars@.len(),
            s@ == chars@.subrange(from as int, i as int),
        decreases to - i,
    {
        string_push(&mut s, chars[i]);
        assert(chars@.subrange(from as int, i + 1) =~= chars@.subrange(from as int, i as int).push(
            chars@[i as int],
        ));
        i = i + 1;
    }
    s
}

/// The change that turns `old` into `new`: the common prefix and, after it,
/// the common suffix of the two texts are kept, and what lies between is
/// replaced.
pub fn compute_delta(old: &str, new: &str) -> (change: TextChange)
    ensures
        is_minimal_edit(old@, new@, change@),
{
    let old_chars = chars_of(old);
    let new_chars = chars_of(new);

    let mut prefix_len: usize = 0;
    while prefix_len < old_chars.len() && prefix_len < new_chars.len()
        && old_chars[prefix_len] == new_chars[prefix_len]
        invariant
            prefix_len <= old_chars@.len(),
            prefix_len <= new_chars@.len(),
            forall|i: int| 0 <= i < prefix_len ==> old_chars@[i] == new_chars@[i],
        decreases old_chars@.len() - prefix_len,
    {
        prefix_len += 1;
    }

    let mut suffix_len: usize = 0;
    while suffix_len < (old_chars.len() - prefix_len) && suffix_len < (new_chars.len()
        - prefix_len) && old_chars[old_chars.len() - 1 - suffix_len] == new_chars[new_chars.len()
        - 1 - suffix_len]
        invariant
            prefix_len <= old_chars@.len(),
            prefix_len <= new_chars@.len(),
            prefix_len + suffix_len <= old_chars@.len(),
            prefix_len + suffix_len <= new_chars@.len(),
            old_chars@.skip(old_chars@.len() - suffix_len) == new_chars@.skip(
                new_chars@.len() - suffix_len,
            ),
        decreases old_chars@.len() - suffix_len,
    {
        let ghost oa = old_chars@;
        let ghost nb = new_chars@;
        assert(oa.skip(oa.len() - (suffix_len + 1)) =~= seq![oa[oa.len() - 1 - suffix_len]] + oa.skip(
            oa.len() - suffix_len,
        ));
        assert(nb.skip(nb.len() - (suffix_len + 1)) =~= seq![nb[nb.len() - 1 - suffix_len]] + nb.skip(
            nb.len() - suffix_len,
        ));
        suffix_len += 1;
    }

    let old_delta = string_of(&old_chars, prefix_len, old_chars.len() - suffix_len);
    let new_delta = string_of(&new_chars, prefix_len, new_chars.len() - suffix_len);

    let ghost a = old@;
    let ghost b = new@;
    assert(a.take(prefix_len as int) =~= b.take(prefix_len as int));

    TextChange { start_char: prefix_len, old_text: old_delta, new_text: new_delta }
}

} // verus!
