//! The line that is being typed at the console.

use crate::console::MAX_CONSOLE_LINE_BYTES;
use crate::glyph;
use crate::glyph::{cluster_start, on_boundary};
use crate::text;
use vstd::prelude::*;

verus! {

/// A line and a cursor in it. `cursor` counts the bytes before the cursor, `at`
/// the characters.
#[derive(Clone, Debug, PartialEq, Eq)]
pub struct ConsoleLine {
    pub text: String,
    pub cursor: usize,
    pub at: usize,
}

/// The first start of a cluster, or the end, at or after a place.
pub open spec fn boundary_from(clusters: Seq<Seq<char>>, place: nat, from: nat) -> nat
    decreases clusters.len() - from,
{
    if from >= clusters.len() || cluster_start(clusters, from) >= place {
        cluster_start(clusters, from)
    } else {
        boundary_from(clusters, place, from + 1)
    }
}

/// Where the cursor is after a character was put in: at the first boundary
/// behind it, of the clusters that the line then has.
pub open spec fn place_after(line: Seq<char>, place: nat) -> nat {
    boundary_from(glyph::grapheme_clusters(line), place, 0)
}

/// Characters of the last cluster before the cursor.
pub open spec fn last_width(before: Seq<char>) -> nat {
    let clusters = glyph::grapheme_clusters(before);
    if clusters.len() == 0 {
        before.len()
    } else {
        clusters.last().len()
    }
}

/// Characters of the first cluster behind the cursor.
pub open spec fn first_width(behind: Seq<char>) -> nat {
    let clusters = glyph::grapheme_clusters(behind);
    if clusters.len() == 0 {
        0
    } else {
        clusters[0].len()
    }
}

/// A line and the place of its cursor after the cluster before the cursor was taken
/// out.
pub open spec fn backspaced(line: Seq<char>, at: nat) -> (Seq<char>, int) {
    let from = at - last_width(line.take(at as int));
    (line.take(from) + line.skip(at as int), from)
}

/// A line and the place of its cursor after the cluster behind the cursor was taken
/// out.
pub open spec fn deleted(line: Seq<char>, at: nat) -> (Seq<char>, int) {
    let to = at + first_width(line.skip(at as int));
    (line.take(at as int) + line.skip(to as int), at as int)
}

proof fn lemma_start_step(clusters: Seq<Seq<char>>, n: nat)
    requires
        n < clusters.len(),
    ensures
        cluster_start(clusters, n + 1) == cluster_start(clusters, n) + clusters[n as int].len(),
{
    text::lemma_joined_split(clusters, n as int);
}

proof fn lemma_start_whole(clusters: Seq<Seq<char>>)
    ensures
        cluster_start(clusters, clusters.len()) == text::joined(clusters).len(),
        cluster_start(clusters, 0) == 0,
{
    assert(clusters.take(clusters.len() as int) =~= clusters);
    assert(clusters.take(0) =~= Seq::<Seq<char>>::empty());
}

proof fn lemma_boundary(clusters: Seq<Seq<char>>, place: nat, from: nat)
    requires
        from <= clusters.len(),
        place <= text::joined(clusters).len(),
    ensures
        place <= boundary_from(clusters, place, from) <= text::joined(clusters).len(),
        exists|k: nat|
            from <= k <= clusters.len() && boundary_from(clusters, place, from) == #[trigger] cluster_start(
                clusters,
                k,
            ),
    decreases clusters.len() - from,
{
    lemma_start_whole(clusters);
    text::lemma_joined_split(clusters, from as int);
    if from < clusters.len() && cluster_start(clusters, from) < place {
        lemma_boundary(clusters, place, from + 1);
    } else {
        assert(boundary_from(clusters, place, from) == cluster_start(clusters, from));
    }
}

/// The first start of a cluster, or the end, at or after a place, counted in
/// characters.
pub fn first_boundary(clusters: &Vec<String>, place: usize) -> (r: usize)
    requires
        text::joined(text::texts(clusters@)).len() <= usize::MAX,
    ensures
        r == boundary_from(text::texts(clusters@), place as nat, 0),
{
    let ghost cs = text::texts(clusters@);
    let mut found: usize = 0;
    let mut i: usize = 0;
    proof {
        lemma_start_whole(cs);
    }
    while i < clusters.len() && found < place
        invariant
            i <= clusters@.len(),
            text::texts(clusters@) == cs,
            found == cluster_start(cs, i as nat),
            text::joined(cs).len() <= usize::MAX,
            boundary_from(cs, place as nat, 0) == boundary_from(cs, place as nat, i as nat),
        decreases clusters@.len() - i,
    {
        proof {
            assert(cs[i as int] == clusters@[i as int]@);
            lemma_start_step(cs, i as nat);
            text::lemma_joined_split(cs, i + 1);
        }
        let n: usize = text::chars_of(clusters[i].as_str()).len();
        found = found + n;
        i += 1;
    }
    found
}

/// The characters of the last cluster, if there is one.
pub fn last_cluster(clusters: &Vec<String>) -> (r: Option<usize>)
    ensures
        match r {
            Some(n) => clusters@.len() > 0 && n == clusters@.last()@.len(),
            None => clusters@.len() == 0,
        },
{
    if clusters.len() == 0 {
        None
    } else {
        Some(text::chars_of(clusters[clusters.len() - 1].as_str()).len())
    }
}

/// The characters of the first cluster, if there is one.
pub fn first_cluster(clusters: &Vec<String>) -> (r: Option<usize>)
    ensures
        match r {
            Some(n) => clusters@.len() > 0 && n == clusters@[0]@.len(),
            None => clusters@.len() == 0,
        },
{
    if clusters.len() == 0 {
        None
    } else {
        Some(text::chars_of(clusters[0].as_str()).len())
    }
}

impl ConsoleLine {
    /// The line without its cursor.
    pub open spec fn line(&self) -> Seq<char> {
        self.text@
    }

    pub open spec fn well_formed(&self) -> bool {
        &&& self.at <= self.text@.len()
        &&& self.cursor == text::byte_len(self.text@.take(self.at as int))
        &&& text::byte_len(self.text@) <= MAX_CONSOLE_LINE_BYTES
    }

    pub fn text(&self) -> (r: &str)
        ensures
            r@ == self.line(),
    {
        self.text.as_str()
    }

    pub fn cursor(&self) -> (r: usize)
        ensures
            r == self.cursor,
    {
        self.cursor
    }

    fn set(&mut self, chars: &Vec<char>, at: usize)
        requires
            at <= chars@.len(),
            text::byte_len(chars@) <= MAX_CONSOLE_LINE_BYTES,
        ensures
            final(self).text@ == chars@,
            final(self).at == at,
            final(self).well_formed(),
    {
        let whole = text::string_of(chars.as_slice(), 0, chars.len());
        assert(whole@ =~= chars@);
        let before = text::string_of(chars.as_slice(), 0, at);
        assert(before@ =~= chars@.take(at as int));
        self.cursor = text::str_bytes(before.as_str());
        self.text = whole;
        self.at = at;
    }

    /// Puts a character in at the cursor, if it is none that controls and has
    /// room. The cursor then stands behind the cluster that the character is in.
    pub fn insert(&mut self, character: char) -> (r: bool)
        requires
            old(self).well_formed(),
        ensures
            final(self).well_formed(),
            r == (!text::is_control(character) && text::byte_len(old(self).line()) + text::char_width(
                character,
            ) <= MAX_CONSOLE_LINE_BYTES),
            !r ==> *final(self) == *old(self),
            r ==> {
                &&& final(self).line() == old(self).line().insert(old(self).at as int, character)
                &&& final(self).at == place_after(final(self).line(), (old(self).at + 1) as nat)
                &&& on_boundary(final(self).line(), final(self).at as nat)
            },
    {
        let width: usize = text::width_of(character);
        if text::control(character) || text::str_bytes(self.text.as_str()) > MAX_CONSOLE_LINE_BYTES
            - width {
            return false;
        }
        let ghost before = self.text@;
        let mut chars = text::chars_of(self.text.as_str());
        let at: usize = self.at;
        chars.insert(at, character);
        proof {
            lemma_insert_bytes(before, at as int, character);
        }
        let whole = text::string_of(chars.as_slice(), 0, chars.len());
        assert(whole@ =~= chars@);
        let clusters = glyph::graphemes(whole.as_str());
        let ghost cs = glyph::grapheme_clusters(chars@);
        assert(text::texts(clusters@) == cs);
        assert(before.len() <= MAX_CONSOLE_LINE_BYTES) by {
            text::lemma_byte_len_ge(before);
        }
        let desired: usize = at + 1;
        proof {
            lemma_boundary(cs, desired as nat, 0);
        }
        let place = first_boundary(&clusters, desired);
        self.set(&chars, place);
        true
    }

    fn before(&self) -> (r: String)
        requires
            self.well_formed(),
        ensures
            r@ == self.line().take(self.at as int),
    {
        let chars = text::chars_of(self.text.as_str());
        let r = text::string_of(chars.as_slice(), 0, self.at);
        assert(r@ =~= self.line().take(self.at as int));
        r
    }

    fn behind(&self) -> (r: String)
        requires
            self.well_formed(),
        ensures
            r@ == self.line().skip(self.at as int),
    {
        let chars = text::chars_of(self.text.as_str());
        let r = text::string_of(chars.as_slice(), self.at, chars.len());
        assert(r@ =~= self.line().skip(self.at as int));
        r
    }

    fn step_left(&self) -> (r: usize)
        requires
            self.well_formed(),
        ensures
            r == self.at - last_width(self.line().take(self.at as int)),
            r <= self.at,
            self.at > 0 ==> r < self.at,
            self.at > 0 && on_boundary(self.line(), self.at as nat) ==> first_width(
                self.line().skip(r as int),
            ) == self.at - r,
    {
        let before = self.before();
        let clusters = glyph::graphemes(before.as_str());
        let ghost cs = glyph::grapheme_clusters(before@);
        assert(text::texts(clusters@) == cs);
        match last_cluster(&clusters) {
            None => {
                assert(cs.len() == 0);
                0
            },
            Some(n) => {
                proof {
                    let last = cs.len() - 1;
                    assert(cs[last] == clusters@[last]@);
                    lemma_start_step(cs, last as nat);
                    lemma_start_whole(cs);
                    lemma_last_comes_first(self.line(), self.at as int, cs);
                }
                self.at - n
            },
        }
    }

    fn width_right(&self) -> (r: usize)
        requires
            self.well_formed(),
        ensures
            r == first_width(self.line().skip(self.at as int)),
            self.at + r <= self.line().len() <= MAX_CONSOLE_LINE_BYTES,
            self.at < self.line().len() <==> r > 0,
    {
        proof {
            text::lemma_byte_len_ge(self.text@);
        }
        let behind = self.behind();
        let clusters = glyph::graphemes(behind.as_str());
        let ghost cs = glyph::grapheme_clusters(behind@);
        assert(text::texts(clusters@) == cs);
        match first_cluster(&clusters) {
            None => {
                assert(cs.len() == 0);
                0
            },
            Some(n) => {
                proof {
                    assert(cs[0] == clusters@[0]@);
                    lemma_start_step(cs, 0);
                    lemma_start_whole(cs);
                    text::lemma_joined_split(cs, 1);
                }
                n
            },
        }
    }

    fn move_to(&mut self, at: usize)
        requires
            old(self).well_formed(),
            at <= old(self).line().len(),
        ensures
            final(self).well_formed(),
            final(self).line() == old(self).line(),
            final(self).at == at,
    {
        let chars = text::chars_of(self.text.as_str());
        self.set(&chars, at);
    }

    /// Moves the cursor over one cluster to the left. Where it stood at a boundary,
    /// taking out what is then behind it is what a backspace would have done.
    pub fn left(&mut self)
        requires
            old(self).well_formed(),
        ensures
            final(self).well_formed(),
            final(self).line() == old(self).line(),
            final(self).at == old(self).at - last_width(old(self).line().take(old(self).at as int)),
            old(self).at > 0 && on_boundary(old(self).line(), old(self).at as nat) ==> deleted(
                final(self).line(),
                final(self).at as nat,
            ) == backspaced(old(self).line(), old(self).at as nat),
    {
        let at = self.step_left();
        self.move_to(at);
    }

    /// Moves the cursor over one cluster to the right.
    pub fn right(&mut self)
        requires
            old(self).well_formed(),
        ensures
            final(self).well_formed(),
            final(self).line() == old(self).line(),
            final(self).at == old(self).at + first_width(old(self).line().skip(old(self).at as int)),
    {
        let n = self.width_right();
        let at: usize = self.at + n;
        self.move_to(at);
    }

    pub fn home(&mut self)
        requires
            old(self).well_formed(),
        ensures
            final(self).well_formed(),
            final(self).line() == old(self).line(),
            final(self).at == 0,
            final(self).cursor == 0,
    {
        self.move_to(0);
        assert(self.text@.take(0) =~= Seq::<char>::empty());
    }

    pub fn end(&mut self)
        requires
            old(self).well_formed(),
        ensures
            final(self).well_formed(),
            final(self).line() == old(self).line(),
            final(self).at == old(self).line().len(),
            final(self).cursor == text::byte_len(old(self).line()),
    {
        let n: usize = text::chars_of(self.text.as_str()).len();
        self.move_to(n);
        assert(self.text@.take(n as int) =~= self.text@);
    }

    fn cut(&mut self, from: usize, to: usize)
        requires
            old(self).well_formed(),
            from <= to <= old(self).line().len(),
        ensures
            final(self).well_formed(),
            final(self).line() == old(self).line().take(from as int) + old(self).line().skip(to as int),
            final(self).at == from,
    {
        let ghost line = self.text@;
        let chars = text::chars_of(self.text.as_str());
        let mut kept: Vec<char> = Vec::new();
        let mut i: usize = 0;
        while i < chars.len()
            invariant
                i <= chars@.len(),
                chars@ == line,
                from <= to <= line.len(),
                kept@ == if i <= from {
                    line.take(i as int)
                } else if i <= to {
                    line.take(from as int)
                } else {
                    line.take(from as int) + line.subrange(to as int, i as int)
                },
            decreases chars@.len() - i,
        {
            if i < from || i >= to {
                kept.push(chars[i]);
            }
            i += 1;
            proof {
                if i <= from {
                    assert(kept@ =~= line.take(i as int));
                } else if i <= to {
                    assert(kept@ =~= line.take(from as int));
                } else {
                    assert(kept@ =~= line.take(from as int) + line.subrange(to as int, i as int));
                }
            }
        }
        assert(kept@ =~= line.take(from as int) + line.skip(to as int));
        proof {
            lemma_cut_bytes(line, from as int, to as int);
        }
        self.set(&kept, from);
    }

    /// Takes the cluster before the cursor out.
    pub fn backspace(&mut self) -> (r: bool)
        requires
            old(self).well_formed(),
        ensures
            final(self).well_formed(),
            r == (old(self).at > 0),
            !r ==> *final(self) == *old(self),
            r ==> (final(self).line(), final(self).at as int) == backspaced(
                old(self).line(),
                old(self).at as nat,
            ),
    {
        if self.at == 0 {
            return false;
        }
        let to: usize = self.at;
        let from = self.step_left();
        self.cut(from, to);
        true
    }

    /// Takes the cluster behind the cursor out.
    pub fn delete(&mut self) -> (r: bool)
        requires
            old(self).well_formed(),
        ensures
            final(self).well_formed(),
            r == (old(self).at < old(self).line().len()),
            !r ==> *final(self) == *old(self),
            r ==> (final(self).line(), final(self).at as int) == deleted(
                old(self).line(),
                old(self).at as nat,
            ),
    {
        let n = self.width_right();
        if n == 0 {
            return false;
        }
        let from: usize = self.at;
        self.cut(from, from + n);
        true
    }

    /// Takes the whole line.
    pub fn take(&mut self) -> (r: String)
        ensures
            r@ == old(self).line(),
            final(self).line().len() == 0,
            final(self).cursor == 0,
            final(self).well_formed(),
    {
        let r = self.text.clone();
        self.text = String::new();
        self.cursor = 0;
        self.at = 0;
        assert(self.text@.take(0) =~= Seq::<char>::empty());
        r
    }
}

impl Default for ConsoleLine {
    fn default() -> (r: ConsoleLine)
        ensures
            r.line().len() == 0,
            r.cursor == 0,
            r.well_formed(),
    {
        let r = ConsoleLine { text: String::new(), cursor: 0, at: 0 };
        assert(r.text@.take(0) =~= Seq::<char>::empty());
        r
    }
}

/// The last cluster before a boundary is the first one from where it starts.
proof fn lemma_last_comes_first(line: Seq<char>, at: int, cs: Seq<Seq<char>>)
    requires
        0 <= at <= line.len(),
        cs.len() > 0,
        text::joined(cs) == line.take(at),
        forall|t: Seq<char>, k: int|
            0 <= k <= cs.len() && on_boundary(line.take(at) + t, at as nat)
                ==> #[trigger] glyph::grapheme_clusters(text::joined(cs.skip(k)) + t) == cs.skip(k)
                + glyph::grapheme_clusters(t),
    ensures
        on_boundary(line, at as nat) ==> first_width(line.skip(at - cs.last().len()))
            == cs.last().len(),
{
    let k = cs.len() - 1;
    let t = line.skip(at);
    let last = cs.last();
    assert(line.take(at) + t =~= line);
    text::lemma_joined_split(cs, k);
    assert(cs.skip(k) =~= seq![last]);
    assert(seq![last].skip(1) =~= Seq::<Seq<char>>::empty());
    reveal_with_fuel(text::joined, 2);
    assert(text::joined(cs.skip(k)) =~= last);
    let start = text::joined(cs.take(k)).len();
    lemma_start_step(cs, k as nat);
    lemma_start_whole(cs);
    assert(start == at - last.len());
    assert(text::joined(cs) =~= text::joined(cs.take(k)) + last);
    assert(line.skip(start as int) =~= last + t);
    if on_boundary(line, at as nat) {
        let all = glyph::grapheme_clusters(text::joined(cs.skip(k)) + t);
        assert(all == cs.skip(k) + glyph::grapheme_clusters(t));
        assert(all[0] == last);
    }
}

proof fn lemma_insert_bytes(line: Seq<char>, at: int, c: char)
    requires
        0 <= at <= line.len(),
    ensures
        text::byte_len(line.insert(at, c)) == text::byte_len(line) + text::char_width(c),
{
    assert(line.insert(at, c) =~= line.take(at).push(c) + line.skip(at));
    assert(line =~= line.take(at) + line.skip(at));
    text::lemma_byte_len_concat(line.take(at).push(c), line.skip(at));
    text::lemma_byte_len_concat(line.take(at), line.skip(at));
    text::lemma_byte_len_push(line.take(at), c);
}

proof fn lemma_cut_bytes(line: Seq<char>, from: int, to: int)
    requires
        0 <= from <= to <= line.len(),
    ensures
        text::byte_len(line.take(from) + line.skip(to)) <= text::byte_len(line),
{
    assert(line =~= line.take(from) + (line.subrange(from, to) + line.skip(to)));
    text::lemma_byte_len_concat(line.take(from), line.subrange(from, to) + line.skip(to));
    text::lemma_byte_len_concat(line.subrange(from, to), line.skip(to));
    text::lemma_byte_len_concat(line.take(from), line.skip(to));
}

} // verus!
