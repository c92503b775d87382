use vstd::prelude::*;
use vstd::utf8::{decode_utf8, valid_utf8};
use ropey::Rope;
use crate::decode::{decode_file_bytes, encoding_decode, file_text, without_utf8_bom, TextEncoding};
use crate::edit::{
    compute_delta, is_minimal_edit, lemma_apply_after_revert, lemma_minimal_edit_nonempty,
    lemma_revert_after_apply, splice, Edit, TextChange,
};
use crate::offsets::{
    byte_offset, is_char_start, lemma_byte_offset_in_suffix, lemma_byte_offset_split,
    lemma_byte_offset_strict, lemma_char_start_bounded, utf8_len,
};
use crate::pattern::{compile_pattern, regex_compiles, regex_find, regex_first_match, str_tail};
use crate::rope_text::{
    rope_byte_to_char, rope_char_to_byte, rope_chars, rope_from_str, rope_insert, rope_len_chars,
    rope_new, rope_remove, rope_to_string,
};

verus! {

/// The text of the editor, the file it belongs to, and the history of
/// changes that can be undone and redone (the last entry of each stack is
/// the next one taken).
pub struct TextEngine {
    pub buffer: Rope,
    pub file_path: Option<String>,
    pub undo_stack: Vec<TextChange>,
    pub redo_stack: Vec<TextChange>,
}

/// A match found by a search, as byte offsets into the UTF-8 text.
pub struct SearchResult {
    pub start_byte: usize,
    pub end_byte: usize,
}

/// The file path as chars, if there is one.
pub open spec fn path_view(path: Option<String>) -> Option<Seq<char>> {
    match path {
        Some(p) => Some(p@),
        None => None,
    }
}

/// What a search for `pattern` from char index `start_char` of `text`
/// finds, as byte offsets into the whole text: nothing when the pattern is
/// not a valid regular expression or the start is at the end of the text,
/// else the first match in the rest of the text, shifted by the byte offset
/// at which that rest begins.
pub open spec fn search_spec(text: Seq<char>, pattern: Seq<char>, start_char: int) -> Option<(int, int)> {
    if !regex_compiles(pattern) || start_char >= text.len() {
        None
    } else {
        match regex_first_match(pattern, text.skip(start_char)) {
            Some((s, e)) => Some(
                (byte_offset(text, start_char) + s as int, byte_offset(text, start_char) + e as int),
            ),
            None => None,
        }
    }
}

/// `(cs, ce)` is the char range of the match that a search for `pattern`
/// from char index `start` of `text` finds: the chars at whose encodings
/// the match's start and end bytes lie.
pub open spec fn is_match_char_range(text: Seq<char>, pattern: Seq<char>, start: int, cs: int, ce: int) -> bool {
    &&& 0 <= start <= cs <= ce <= text.len()
    &&& search_spec(text, pattern, start) == Some(
        (byte_offset(text, cs) as int, byte_offset(text, ce) as int),
    )
}

/// The char range of the match that a search for `pattern` from char
/// index `start` of `text` finds, if it finds one.
pub open spec fn match_char_range(text: Seq<char>, pattern: Seq<char>, start: int) -> Option<(int, int)> {
    if exists|cs: int, ce: int| is_match_char_range(text, pattern, start, cs, ce) {
        Some(choose|cs: int, ce: int| is_match_char_range(text, pattern, start, cs, ce))
    } else {
        None
    }
}

/// The result of replacing, from char index `pos` of `text` on, every
/// match of `pattern` by `replacement`, and the number of replacements:
/// the first match from `pos` is replaced, and the search goes on right
/// after the replacement (one char further after an empty match).
pub open spec fn replace_all_from(text: Seq<char>, pattern: Seq<char>, replacement: Seq<char>, pos: int) -> (Seq<char>, nat)
    decreases text.len() - pos,
    when 0 <= pos <= text.len()
{
    match match_char_range(text, pattern, pos) {
        None => (text, 0),
        Some((cs, ce)) => {
            let replaced = splice(text, cs, ce - cs, replacement);
            let next = if cs == ce {
                cs + replacement.len() + 1
            } else {
                cs + replacement.len()
            };
            if pos <= cs <= ce <= text.len() && next <= replaced.len() && replaced.len() - next
                < text.len() - pos {
                let rest = replace_all_from(replaced, pattern, replacement, next);
                (rest.0, rest.1 + 1)
            } else {
                (replaced, 1)
            }
        },
    }
}

/// A search's char range is the one `match_char_range` names: byte offsets
/// grow strictly with char indices, so the range is unique.
pub proof fn lemma_match_char_range(text: Seq<char>, pattern: Seq<char>, start: int, cs: int, ce: int)
    requires
        is_match_char_range(text, pattern, start, cs, ce),
    ensures
        match_char_range(text, pattern, start) == Some((cs, ce)),
{
    assert(exists|x: int, y: int| is_match_char_range(text, pattern, start, x, y));
    let (c1, c2) = choose|x: int, y: int| is_match_char_range(text, pattern, start, x, y);
    if c1 < cs {
        lemma_byte_offset_strict(text, c1, cs);
    }
    if cs < c1 {
        lemma_byte_offset_strict(text, cs, c1);
    }
    if c2 < ce {
        lemma_byte_offset_strict(text, c2, ce);
    }
    if ce < c2 {
        lemma_byte_offset_strict(text, ce, c2);
    }
}

/// Undo right after a change made with history restores the text and the
/// undo history from before the change, and leaves exactly that change to
/// redo. `before` is the engine before `apply_change(c, true)`, `middle`
/// the engine after it (as its `ensures` state), `after` the engine after
/// `undo` (as its `ensures` state); the change must find its old text in
/// the text where it is made.
pub proof fn law_undo_after_apply_change(before: TextEngine, middle: TextEngine, after: TextEngine, c: Edit)
    requires
        c.old != c.new,
        c.matches(before.text()),
        middle.text() == c.apply_to(before.text()),
        middle.undo_edits() == before.undo_edits().push(c),
        middle.redo_edits() == Seq::<Edit>::empty(),
        after.text() == middle.undo_edits().last().revert_in(middle.text()),
        after.undo_edits() == middle.undo_edits().drop_last(),
        after.redo_edits() == middle.redo_edits().push(middle.undo_edits().last()),
    ensures
        middle.undo_edits().last().reverse_fits(middle.text()),
        after.text() == before.text(),
        after.undo_edits() == before.undo_edits(),
        after.redo_edits() == seq![c],
{
    lemma_revert_after_apply(before.text(), c);
    assert(before.undo_edits().push(c).drop_last() =~= before.undo_edits());
    assert(Seq::<Edit>::empty().push(c) =~= seq![c]);
}

/// Redo right after an undo gives back the text and the undo history from
/// before the undo, and the redo history from before it. `before` is the
/// engine before `undo`, `middle` after it, `after` after `redo`, each as
/// the `ensures` of those functions state it; the undone change must find
/// its old text where it was made.
pub proof fn law_redo_after_undo(before: TextEngine, middle: TextEngine, after: TextEngine, c: Edit, earlier: Seq<char>)
    requires
        before.undo_edits().len() > 0,
        c == before.undo_edits().last(),
        c.matches(earlier),
        before.text() == c.apply_to(earlier),
        middle.text() == c.revert_in(before.text()),
        middle.undo_edits() == before.undo_edits().drop_last(),
        middle.redo_edits() == before.redo_edits().push(c),
        after.text() == middle.redo_edits().last().apply_to(middle.text()),
        after.redo_edits() == middle.redo_edits().drop_last(),
        after.undo_edits() == middle.undo_edits().push(middle.redo_edits().last()),
    ensures
        middle.redo_edits().last().fits(middle.text()),
        after.text() == before.text(),
        after.undo_edits() == before.undo_edits(),
        after.redo_edits() == before.redo_edits(),
{
    lemma_apply_after_revert(earlier, c);
    assert(before.redo_edits().push(c).drop_last() =~= before.redo_edits());
    assert(before.undo_edits().drop_last().push(c) =~= before.undo_edits());
}

/// Undo right after the editor records a change of its text gives back
/// the text from before the change and the undo history from before it.
/// `before` is the engine before `record_text_change(new_text)`, `middle`
/// after it, `after` after `undo`, each as their `ensures` state.
pub proof fn law_undo_after_recorded_change(before: TextEngine, middle: TextEngine, after: TextEngine, new_text: Seq<char>)
    requires
        before.text() != new_text,
        middle.text() == new_text,
        middle.undo_edits().len() == before.undo_edits().len() + 1,
        middle.undo_edits().drop_last() == before.undo_edits(),
        is_minimal_edit(before.text(), new_text, middle.undo_edits().last()),
        after.text() == middle.undo_edits().last().revert_in(middle.text()),
        after.undo_edits() == middle.undo_edits().drop_last(),
    ensures
        middle.undo_edits().last().reverse_fits(middle.text()),
        after.text() == before.text(),
        after.undo_edits() == before.undo_edits(),
{
    crate::edit::lemma_minimal_edit_rebuilds(before.text(), new_text, middle.undo_edits().last());
}

impl SearchResult {
    /// The search result for a match `found` in a text that begins at byte
    /// `start_byte` of the whole text: its offsets shifted by `start_byte`.
    pub fn shifted(start_byte: usize, found: Option<(usize, usize)>) -> (res: Option<SearchResult>)
        requires
            found matches Some((s, e)) ==> s <= e && start_byte + e <= usize::MAX,
        ensures
            found is None ==> res is None,
            found matches Some((s, e)) ==> res matches Some(r) && r.start_byte == start_byte + s
                && r.end_byte == start_byte + e,
    {
        match found {
            Some((s, e)) => Some(SearchResult { start_byte: start_byte + s, end_byte: start_byte + e }),
            None => None,
        }
    }
}

impl TextEngine {
    /// The chars of the text.
    pub open spec fn text(&self) -> Seq<char> {
        rope_chars(self.buffer)
    }

    /// The changes that can be undone, oldest first.
    pub open spec fn undo_edits(&self) -> Seq<Edit> {
        self.undo_stack@.map_values(|c: TextChange| c@)
    }

    /// The changes that can be redone, the next one last.
    pub open spec fn redo_edits(&self) -> Seq<Edit> {
        self.redo_stack@.map_values(|c: TextChange| c@)
    }

    /// The file the text belongs to, if any.
    pub open spec fn path(&self) -> Option<Seq<char>> {
        path_view(self.file_path)
    }

    /// An engine with an empty text, no file, and no history.
    pub fn new() -> (engine: Self)
        ensures
            engine.text() == Seq::<char>::empty(),
            engine.path() is None,
            engine.undo_edits() == Seq::<Edit>::empty(),
            engine.redo_edits() == Seq::<Edit>::empty(),
    {
        let engine = Self {
            buffer: rope_new(),
            file_path: None,
            undo_stack: Vec::new(),
            redo_stack: Vec::new(),
        };
        assert(engine.undo_edits() =~= Seq::<Edit>::empty());
        assert(engine.redo_edits() =~= Seq::<Edit>::empty());
        engine
    }

    /// Makes `change` in the text: as many chars as its old text holds are
    /// removed at its start, and its new text is put there. A change whose
    /// old and new texts are equal does nothing. With `save_history`, the
    /// change goes on the undo stack and the redo stack is emptied.
    pub fn apply_change(&mut self, change: TextChange, save_history: bool)
        requires
            change.old_text@ != change.new_text@ ==> change@.fits(old(self).text()),
        ensures
            final(self).path() == old(self).path(),
            change.old_text@ == change.new_text@ ==> {
                &&& final(self).text() == old(self).text()
                &&& final(self).undo_edits() == old(self).undo_edits()
                &&& final(self).redo_edits() == old(self).redo_edits()
            },
            change.old_text@ != change.new_text@ ==> {
                &&& final(self).text() == change@.apply_to(old(self).text())
                &&& save_history ==> final(self).undo_edits() == old(self).undo_edits().push(
                    change@,
                ) && final(self).redo_edits() == Seq::<Edit>::empty()
                &&& !save_history ==> final(self).undo_edits() == old(self).undo_edits()
                    && final(self).redo_edits() == old(self).redo_edits()
            },
    {
        if change.old_text == change.new_text {
            return;
        }
        let ghost text0 = self.text();
        let start_char = change.start_char;

        if !change.old_text.as_str().is_empty() {
            let char_count = change.old_text.as_str().unicode_len();
            let len = rope_len_chars(&self.buffer);
            assert(start_char + char_count <= len);
            rope_remove(&mut self.buffer, start_char, start_char + char_count);
        }
        assert(self.text() =~= text0.take(start_char as int) + text0.skip(
            start_char + change.old_text@.len(),
        ));

        if !change.new_text.as_str().is_empty() {
            rope_insert(&mut self.buffer, start_char, change.new_text.as_str());
        }
        assert(self.text() =~= change@.apply_to(text0));

        if save_history {
            let ghost e = change@;
            self.undo_stack.push(change);
            self.redo_stack.clear();
            assert(self.undo_edits() =~= old(self).undo_edits().push(e));
            assert(self.redo_edits() =~= Seq::<Edit>::empty());
        }
    }

    /// Takes back the last change on the undo stack: its new text is
    /// removed at its start and its old text put back, and the change moves
    /// to the redo stack and is returned. With nothing to undo, nothing
    /// changes and `None` is returned.
    pub fn undo(&mut self) -> (res: Option<TextChange>)
        requires
            old(self).undo_edits().len() > 0 ==> old(self).undo_edits().last().reverse_fits(
                old(self).text(),
            ),
        ensures
            final(self).path() == old(self).path(),
            old(self).undo_edits().len() == 0 ==> {
                &&& res is None
                &&& final(self).text() == old(self).text()
                &&& final(self).undo_edits() == old(self).undo_edits()
                &&& final(self).redo_edits() == old(self).redo_edits()
            },
            old(self).undo_edits().len() > 0 ==> {
                let e = old(self).undo_edits().last();
                &&& res matches Some(c) && c@ == e
                &&& final(self).text() == e.revert_in(old(self).text())
                &&& final(self).undo_edits() == old(self).undo_edits().drop_last()
                &&& final(self).redo_edits() == old(self).redo_edits().push(e)
            },
    {
        let ghost text0 = self.text();
        let ghost undo0 = self.undo_edits();
        let ghost redo0 = self.redo_edits();
        let change = match self.undo_stack.pop() {
            Some(c) => c,
            None => {
                assert(self.undo_edits() =~= undo0);
                return None;
            },
        };
        assert(change@ == undo0.last());
        assert(self.undo_edits() =~= undo0.drop_last());

        let char_count_new = change.new_text.as_str().unicode_len();
        let len = rope_len_chars(&self.buffer);
        assert(change.start_char + char_count_new <= len);
        rope_remove(&mut self.buffer, change.start_char, change.start_char + char_count_new);
        rope_insert(&mut self.buffer, change.start_char, change.old_text.as_str());
        assert(self.text() =~= change@.revert_in(text0));

        self.redo_stack.push(change.duplicate());
        assert(self.redo_edits() =~= redo0.push(change@));
        Some(change)
    }

    /// Makes again the last change on the redo stack: its old text is
    /// removed at its start and its new text put there, and the change moves
    /// back to the undo stack and is returned. With nothing to redo, nothing
    /// changes and `None` is returned.
    pub fn redo(&mut self) -> (res: Option<TextChange>)
        requires
            old(self).redo_edits().len() > 0 ==> old(self).redo_edits().last().fits(
                old(self).text(),
            ),
        ensures
            final(self).path() == old(self).path(),
            old(self).redo_edits().len() == 0 ==> {
                &&& res is None
                &&& final(self).text() == old(self).text()
                &&& final(self).undo_edits() == old(self).undo_edits()
                &&& final(self).redo_edits() == old(self).redo_edits()
            },
            old(self).redo_edits().len() > 0 ==> {
                let e = old(self).redo_edits().last();
                &&& res matches Some(c) && c@ == e
                &&& final(self).text() == e.apply_to(old(self).text())
                &&& final(self).redo_edits() == old(self).redo_edits().drop_last()
                &&& final(self).undo_edits() == old(self).undo_edits().push(e)
            },
    {
        let ghost text0 = self.text();
        let ghost undo0 = self.undo_edits();
        let ghost redo0 = self.redo_edits();
        let change = match self.redo_stack.pop() {
            Some(c) => c,
            None => {
                assert(self.redo_edits() =~= redo0);
                return None;
            },
        };
        assert(change@ == redo0.last());
        assert(self.redo_edits() =~= redo0.drop_last());

        let char_count_old = change.old_text.as_str().unicode_len();
        let len = rope_len_chars(&self.buffer);
        assert(change.start_char + char_count_old <= len);
        rope_remove(&mut self.buffer, change.start_char, change.start_char + char_count_old);
        rope_insert(&mut self.buffer, change.start_char, change.new_text.as_str());
        assert(self.text() =~= change@.apply_to(text0));

        self.undo_stack.push(change.duplicate());
        assert(self.undo_edits() =~= undo0.push(change@));
        Some(change)
    }

    /// Searches the text for the regular expression `pattern`, from char
    /// index `start_char` on. Returns the byte offsets of the first match,
    /// or `None` when the pattern is invalid, the start is at the end of the
    /// text, or nothing matches.
    pub fn find(&self, pattern: &str, start_char: usize) -> (res: Option<SearchResult>)
        requires
            start_char <= self.text().len(),
        ensures
            res is Some <==> search_spec(self.text(), pattern@, start_char as int) is Some,
            res matches Some(r) ==> search_spec(self.text(), pattern@, start_char as int) == Some(
                (r.start_byte as int, r.end_byte as int),
            ),
            res matches Some(r) ==> r.start_byte <= r.end_byte && is_char_start(
                self.text(),
                r.start_byte as int,
            ) && is_char_start(self.text(), r.end_byte as int),
    {
        let text = rope_to_string(&self.buffer);
        let re = match compile_pattern(pattern) {
            Some(re) => re,
            None => return None,
        };

        let start_byte = rope_char_to_byte(&self.buffer, start_char);
        proof {
            lemma_byte_offset_split(text@, start_char as int);
            assert(text@.take(text@.len() as int) =~= text@);
        }
        if start_byte >= text.as_str().len() {
            return None;
        }

        let ghost rest = text@.skip(start_char as int);
        assert(is_char_start(text@, start_byte as int));
        let haystack = str_tail(text.as_str(), start_byte);
        assert(haystack@ == rest);
        let found = regex_find(&re, haystack);
        proof {
            if let Some((s, e)) = found {
                let js = choose|j: int| 0 <= j <= rest.len() && #[trigger] byte_offset(rest, j) == s;
                let je = choose|j: int| 0 <= j <= rest.len() && #[trigger] byte_offset(rest, j) == e;
                lemma_byte_offset_in_suffix(text@, start_char as int, js);
                lemma_byte_offset_in_suffix(text@, start_char as int, je);
                lemma_byte_offset_split(text@, start_char + je);
                assert(byte_offset(text@, start_char + js) == start_byte + s);
                assert(byte_offset(text@, start_char + je) == start_byte + e);
            }
        }
        SearchResult::shifted(start_byte, found)
    }

    /// Searches as `find` does and gives the match as a char range of the
    /// text: the chars whose encodings begin at the match's start and end
    /// bytes.
    pub fn find_chars(&self, pattern: &str, start_char: usize) -> (res: Option<(usize, usize)>)
        requires
            start_char <= self.text().len(),
        ensures
            res is Some <==> search_spec(self.text(), pattern@, start_char as int) is Some,
            res is None ==> match_char_range(self.text(), pattern@, start_char as int) is None,
            res matches Some((cs, ce)) ==> is_match_char_range(
                self.text(),
                pattern@,
                start_char as int,
                cs as int,
                ce as int,
            ) && match_char_range(self.text(), pattern@, start_char as int) == Some(
                (cs as int, ce as int),
            ),
    {
        match self.find(pattern, start_char) {
            None => {
                assert(!exists|cs: int, ce: int| is_match_char_range(self.text(), pattern@, start_char as int, cs, ce));
                None
            },
            Some(r) => {
                let ghost text = self.text();
                let ghost ks = choose|k: int| 0 <= k <= text.len() && #[trigger] byte_offset(text, k) == r.start_byte;
                let ghost ke = choose|k: int| 0 <= k <= text.len() && #[trigger] byte_offset(text, k) == r.end_byte;
                proof {
                    lemma_char_start_bounded(text, ks);
                    lemma_char_start_bounded(text, ke);
                }
                let cs = rope_byte_to_char(&self.buffer, r.start_byte);
                let ce = rope_byte_to_char(&self.buffer, r.end_byte);
                proof {
                    assert(cs == ks);
                    assert(ce == ke);
                    if cs < start_char {
                        lemma_byte_offset_strict(text, cs as int, start_char as int);
                    }
                    if ce < cs {
                        lemma_byte_offset_strict(text, ce as int, cs as int);
                    }
                    lemma_match_char_range(text, pattern@, start_char as int, cs as int, ce as int);
                }
                Some((cs, ce))
            },
        }
    }

    /// Brings the text up to date with `new_text`, as the editor does after
    /// each keystroke: when they differ, the minimal change from the current
    /// text to `new_text` is made and recorded in the undo history, and the
    /// redo history is emptied; when they are equal, nothing happens.
    pub fn record_text_change(&mut self, new_text: &str)
        ensures
            final(self).text() == new_text@,
            final(self).path() == old(self).path(),
            old(self).text() == new_text@ ==> {
                &&& final(self).undo_edits() == old(self).undo_edits()
                &&& final(self).redo_edits() == old(self).redo_edits()
            },
            old(self).text() != new_text@ ==> {
                &&& final(self).undo_edits().len() == old(self).undo_edits().len() + 1
                &&& final(self).undo_edits().drop_last() == old(self).undo_edits()
                &&& is_minimal_edit(old(self).text(), new_text@, final(self).undo_edits().last())
                &&& final(self).redo_edits() == Seq::<Edit>::empty()
            },
    {
        let old_text = self.get_text();
        let new_string = new_text.to_string();
        if old_text != new_string {
            let change = compute_delta(old_text.as_str(), new_text);
            proof {
                lemma_minimal_edit_nonempty(old_text@, new_text@, change@);
                crate::edit::lemma_minimal_edit_rebuilds(old_text@, new_text@, change@);
            }
            let ghost e = change@;
            self.apply_change(change, true);
            assert(self.undo_edits().drop_last() =~= old(self).undo_edits());
        }
    }

    /// Replaces the first match of the regular expression `pattern` from
    /// char index `start_char` on by the text `replacement`, recording the
    /// change in the undo history, and returns the char index just past the
    /// inserted replacement. When nothing matches, nothing changes and
    /// `None` is returned.
    pub fn replace_once(&mut self, pattern: &str, replacement: &str, start_char: usize) -> (res: Option<usize>)
        requires
            start_char <= old(self).text().len(),
        ensures
            final(self).path() == old(self).path(),
            match_char_range(old(self).text(), pattern@, start_char as int) is None ==> {
                &&& res is None
                &&& final(self).text() == old(self).text()
                &&& final(self).undo_edits() == old(self).undo_edits()
                &&& final(self).redo_edits() == old(self).redo_edits()
            },
            match_char_range(old(self).text(), pattern@, start_char as int) matches Some((cs, ce))
                ==> {
                let e = Edit { start: cs, old: old(self).text().subrange(cs, ce), new: replacement@ };
                &&& res matches Some(end) && end == cs + replacement@.len()
                &&& final(self).text() == e.apply_to(old(self).text())
                &&& e.old != e.new ==> final(self).undo_edits() == old(self).undo_edits().push(e)
                    && final(self).redo_edits() == Seq::<Edit>::empty()
                &&& e.old == e.new ==> final(self).undo_edits() == old(self).undo_edits()
                    && final(self).redo_edits() == old(self).redo_edits()
            },
    {
        match self.find_chars(pattern, start_char) {
            None => None,
            Some((cs, ce)) => {
                let text = self.get_text();
                let matched = text.as_str().substring_char(cs, ce).to_string();
                let change = TextChange {
                    start_char: cs,
                    old_text: matched,
                    new_text: replacement.to_string(),
                };
                let rep_len = replacement.unicode_len();
                self.apply_change(change, true);
                let len = rope_len_chars(&self.buffer);
                assert(cs + rep_len <= len);
                Some(cs + rep_len)
            },
        }
    }

    /// Replaces every match of the regular expression `pattern` by the text
    /// `replacement`, from the start of the text on (see
    /// `replace_all_from`), and returns the number of replacements. The
    /// whole replacement is recorded as one change of the text, as
    /// `record_text_change` records it.
    pub fn replace_all(&mut self, pattern: &str, replacement: &str) -> (count: usize)
        ensures
            final(self).text() == replace_all_from(old(self).text(), pattern@, replacement@, 0).0,
            count == replace_all_from(old(self).text(), pattern@, replacement@, 0).1,
            final(self).path() == old(self).path(),
            old(self).text() == final(self).text() ==> {
                &&& final(self).undo_edits() == old(self).undo_edits()
                &&& final(self).redo_edits() == old(self).redo_edits()
            },
            old(self).text() != final(self).text() ==> {
                &&& final(self).undo_edits().len() == old(self).undo_edits().len() + 1
                &&& final(self).undo_edits().drop_last() == old(self).undo_edits()
                &&& is_minimal_edit(old(self).text(), final(self).text(), final(self).undo_edits().last())
                &&& final(self).redo_edits() == Seq::<Edit>::empty()
            },
    {
        let ghost text0 = self.text();
        let ghost result = replace_all_from(text0, pattern@, replacement@, 0);
        let current = self.get_text();
        let mut scratch = TextEngine::new();
        scratch.set_text(current.as_str());
        let len0 = rope_len_chars(&scratch.buffer);
        let rep_len = replacement.unicode_len();
        let mut pos: usize = 0;
        let mut count: usize = 0;
        loop
            invariant_except_break
                pos <= scratch.text().len(),
                replace_all_from(scratch.text(), pattern@, replacement@, pos as int).0 == result.0,
                replace_all_from(scratch.text(), pattern@, replacement@, pos as int).1 + count
                    == result.1,
                count + (scratch.text().len() - pos) <= len0,
            invariant
                len0 == text0.len(),
                rep_len == replacement@.len(),
            ensures
                scratch.text() == result.0,
                count == result.1,
            decreases scratch.text().len() - pos,
        {
            let ghost t = scratch.text();
            match scratch.find_chars(pattern, pos) {
                None => {
                    break;
                },
                Some((cs, ce)) => {
                    let text = scratch.get_text();
                    let matched = text.as_str().substring_char(cs, ce).to_string();
                    let change = TextChange {
                        start_char: cs,
                        old_text: matched,
                        new_text: replacement.to_string(),
                    };
                    scratch.apply_change(change, false);
                    let ghost replaced = splice(t, cs as int, ce - cs, replacement@);
                    assert(scratch.text() =~= replaced);
                    let len = rope_len_chars(&scratch.buffer);
                    assert(cs + rep_len <= len);
                    count = count + 1;
                    let next = cs + rep_len;
                    if cs == ce {
                        if next >= len {
                            break;
                        }
                        pos = next + 1;
                    } else {
                        pos = next;
                    }
                },
            }
        }
        let new_text = scratch.get_text();
        self.record_text_change(new_text.as_str());
        count
    }

    /// The text, as a string.
    pub fn get_text(&self) -> (text: String)
        ensures
            text@ == self.text(),
    {
        rope_to_string(&self.buffer)
    }

    /// Replaces the whole text by `text`; the file and the history stay.
    pub fn set_text(&mut self, text: &str)
        ensures
            final(self).text() == text@,
            final(self).path() == old(self).path(),
            final(self).undo_edits() == old(self).undo_edits(),
            final(self).redo_edits() == old(self).redo_edits(),
    {
        self.buffer = rope_from_str(text);
    }

    /// Loads the contents `bytes` of the file at `path`: the text becomes
    /// their UTF-8 decoding when that has no errors, else their Shift_JIS
    /// decoding, and the engine now belongs to `path`. The history stays.
    pub fn load_from_bytes(&mut self, bytes: &[u8], path: &str)
        requires
            bytes@.len() <= usize::MAX / 4,
        ensures
            final(self).text() == file_text(bytes@),
            !encoding_decode(TextEncoding::Utf8, bytes@).1 ==> final(self).text() == encoding_decode(
                TextEncoding::Utf8,
                bytes@,
            ).0,
            encoding_decode(TextEncoding::Utf8, bytes@).1 ==> final(self).text() == encoding_decode(
                TextEncoding::ShiftJis,
                bytes@,
            ).0,
            valid_utf8(bytes@) ==> final(self).text() == decode_utf8(without_utf8_bom(bytes@)),
            final(self).path() == Some(path@),
            final(self).undo_edits() == old(self).undo_edits(),
            final(self).redo_edits() == old(self).redo_edits(),
    {
        let text = decode_file_bytes(bytes);
        self.buffer = rope_from_str(text.as_str());
        self.file_path = Some(path.to_string());
    }
}

impl Default for TextEngine {
    /// The same as `TextEngine::new`.
    fn default() -> (engine: Self)
        ensures
            engine.text() == Seq::<char>::empty(),
            engine.path() is None,
            engine.undo_edits() == Seq::<Edit>::empty(),
            engine.redo_edits() == Seq::<Edit>::empty(),
    {
        Self::new()
    }
}

} // verus!
