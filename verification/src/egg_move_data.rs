//! Egg move tables.
//!
//! The table is a stream of little-endian `u16` words: a word above
//! [`EGG_MOVE_SPECIES_OFFSET`] starts the entry of species `word - 20000`,
//! the words after it are that species' egg moves, and `0xFFFF` ends the
//! table. The "simple" format of a single species is its move words followed
//! by `0xFFFF`.
use vstd::prelude::*;
use crate::bytes::{enc_u16, read_u16, push_u16, enc_words, word_at, words_of, terminated_at,
    has_terminator, lemma_enc_words, lemma_enc_words_append, lemma_terminator_unique};
use crate::error::{UxieError, ErrorKind};

verus! {

pub const EGG_MOVE_TERMINATOR: u16 = 0xFFFF;

pub const EGG_MOVE_SPECIES_OFFSET: u16 = 20000;

/// The egg moves of one species.
#[derive(Debug, Clone, PartialEq, Eq, Default)]
pub struct EggMoveEntry {
    pub species_id: u16,
    pub move_ids: Vec<u16>,
}

impl View for EggMoveEntry {
    type V = (u16, Seq<u16>);

    open spec fn view(&self) -> (u16, Seq<u16>) {
        (self.species_id, self.move_ids@)
    }
}

/// All egg move entries of a table, in stream order.
#[derive(Debug, Clone, PartialEq, Eq, Default)]
pub struct EggMoveData {
    pub entries: Vec<EggMoveEntry>,
}

impl View for EggMoveData {
    type V = Seq<(u16, Seq<u16>)>;

    open spec fn view(&self) -> Seq<(u16, Seq<u16>)> {
        self.entries@.map_values(|e: EggMoveEntry| e@)
    }
}

// ----- decoding -----

/// The state of the decoder: finished entries and the entry being filled.
pub type EggState = (Seq<(u16, Seq<u16>)>, Option<(u16, Seq<u16>)>);

/// One decoder step on a non-terminator word.
pub open spec fn egg_step(st: EggState, w: u16) -> EggState {
    if w > EGG_MOVE_SPECIES_OFFSET {
        let done = match st.1 {
            Some(e) => st.0.push(e),
            None => st.0,
        };
        (done, Some(((w - EGG_MOVE_SPECIES_OFFSET) as u16, Seq::empty())))
    } else {
        match st.1 {
            Some(e) => (st.0, Some((e.0, e.1.push(w)))),
            None => st,
        }
    }
}

/// The decoder state after a sequence of non-terminator words.
pub open spec fn egg_fold(st: EggState, ws: Seq<u16>) -> EggState
    decreases ws.len(),
{
    if ws.len() == 0 {
        st
    } else {
        egg_step(egg_fold(st, ws.drop_last()), ws.last())
    }
}

/// The entries a decoder state ends with once the terminator is read.
pub open spec fn egg_finish(st: EggState) -> Seq<(u16, Seq<u16>)> {
    match st.1 {
        Some(e) => st.0.push(e),
        None => st.0,
    }
}

/// The entries of a table whose words before the terminator are `ws`.
pub open spec fn egg_decode(ws: Seq<u16>) -> Seq<(u16, Seq<u16>)> {
    egg_finish(egg_fold((Seq::empty(), None), ws))
}

pub proof fn lemma_egg_fold_append(st: EggState, a: Seq<u16>, b: Seq<u16>)
    ensures
        egg_fold(st, a + b) == egg_fold(egg_fold(st, a), b),
    decreases b.len(),
{
    if b.len() == 0 {
        assert(a + b =~= a);
    } else {
        lemma_egg_fold_append(st, a, b.drop_last());
        assert((a + b).drop_last() =~= a + b.drop_last());
        assert((a + b).last() == b.last());
    }
}

// ----- encoding -----

/// The words of one entry: its species marker, then its moves.
pub open spec fn entry_words(e: (u16, Seq<u16>)) -> Seq<u16> {
    seq![(e.0 + EGG_MOVE_SPECIES_OFFSET) as u16] + e.1
}

/// The words of all entries, without the terminator.
pub open spec fn entries_words(es: Seq<(u16, Seq<u16>)>) -> Seq<u16>
    decreases es.len(),
{
    if es.len() == 0 {
        Seq::empty()
    } else {
        entries_words(es.drop_last()) + entry_words(es.last())
    }
}

/// The bytes of a table.
pub open spec fn egg_encode(es: Seq<(u16, Seq<u16>)>) -> Seq<u8> {
    enc_words(entries_words(es).push(EGG_MOVE_TERMINATOR))
}

/// The byte size of a table: two bytes per word, terminator included.
pub open spec fn egg_size(es: Seq<(u16, Seq<u16>)>) -> int
    decreases es.len(),
{
    if es.len() == 0 {
        2
    } else {
        egg_size(es.drop_last()) + 2 + 2 * es.last().1.len()
    }
}

/// Every entry can be written without overflow: its species marker fits a `u16`.
pub open spec fn egg_writable(es: Seq<(u16, Seq<u16>)>) -> bool {
    forall|i: int| 0 <= i < es.len() ==> (#[trigger] es[i]).0 + EGG_MOVE_SPECIES_OFFSET <= u16::MAX
}

/// The values of a table survive a write and a read: species markers are
/// above the species offset and are not the terminator, moves are at most
/// the species offset.
pub open spec fn egg_roundtrips(es: Seq<(u16, Seq<u16>)>) -> bool {
    forall|i: int|
        0 <= i < es.len() ==> {
            &&& 1 <= (#[trigger] es[i]).0 < 0xFFFF - EGG_MOVE_SPECIES_OFFSET
            &&& forall|j: int| 0 <= j < es[i].1.len() ==> es[i].1[j] <= EGG_MOVE_SPECIES_OFFSET
        }
}

proof fn lemma_fold_moves(done: Seq<(u16, Seq<u16>)>, sp: u16, pre: Seq<u16>, ms: Seq<u16>)
    requires
        forall|j: int| 0 <= j < ms.len() ==> ms[j] <= EGG_MOVE_SPECIES_OFFSET,
    ensures
        egg_fold((done, Some((sp, pre))), ms) == (done, Some((sp, pre + ms))),
    decreases ms.len(),
{
    if ms.len() == 0 {
        assert(pre + ms =~= pre);
    } else {
        lemma_fold_moves(done, sp, pre, ms.drop_last());
        assert((pre + ms.drop_last()).push(ms.last()) =~= pre + ms);
    }
}

proof fn lemma_fold_entries(es: Seq<(u16, Seq<u16>)>)
    requires
        egg_roundtrips(es),
    ensures
        egg_fold((Seq::empty(), None), entries_words(es)) == (if es.len() == 0 {
            (Seq::<(u16, Seq<u16>)>::empty(), None::<(u16, Seq<u16>)>)
        } else {
            (es.drop_last(), Some(es.last()))
        }),
    decreases es.len(),
{
    if es.len() > 0 {
        let pre = es.drop_last();
        let e = es.last();
        assert(egg_roundtrips(pre)) by {
            assert forall|i: int| 0 <= i < pre.len() implies {
                &&& 1 <= (#[trigger] pre[i]).0 < 0xFFFF - EGG_MOVE_SPECIES_OFFSET
                &&& forall|j: int| 0 <= j < pre[i].1.len() ==> pre[i].1[j] <= EGG_MOVE_SPECIES_OFFSET
            } by {
                assert(pre[i] == es[i]);
            }
        }
        lemma_fold_entries(pre);
        let st0 = egg_fold((Seq::empty(), None), entries_words(pre));
        let marker = (e.0 + EGG_MOVE_SPECIES_OFFSET) as u16;
        assert(es[es.len() - 1] == e);
        lemma_egg_fold_append((Seq::empty(), None), entries_words(pre), entry_words(e));
        lemma_egg_fold_append(st0, seq![marker], e.1);
        assert(seq![marker].drop_last() =~= Seq::<u16>::empty());
        let st1 = egg_fold(st0, seq![marker]);
        assert(1 <= es[es.len() - 1].0 < 0xFFFF - EGG_MOVE_SPECIES_OFFSET);
        assert(marker > EGG_MOVE_SPECIES_OFFSET);
        assert(egg_fold(st0, Seq::<u16>::empty()) == st0);
        assert(st1 == egg_step(st0, marker));
        assert(st1 == (pre, Some((e.0, Seq::<u16>::empty())))) by {
            if pre.len() > 0 {
                assert(pre.drop_last().push(pre.last()) =~= pre);
            }
        }
        assert forall|j: int| 0 <= j < e.1.len() implies e.1[j] <= EGG_MOVE_SPECIES_OFFSET by {
            assert(es[es.len() - 1].1[j] <= EGG_MOVE_SPECIES_OFFSET);
        }
        lemma_fold_moves(pre, e.0, Seq::empty(), e.1);
        assert(Seq::<u16>::empty() + e.1 =~= e.1);
    }
}

proof fn lemma_entries_words_no_terminator(es: Seq<(u16, Seq<u16>)>)
    requires
        egg_roundtrips(es),
    ensures
        forall|k: int| 0 <= k < entries_words(es).len() ==> #[trigger] entries_words(es)[k] != EGG_MOVE_TERMINATOR,
    decreases es.len(),
{
    if es.len() > 0 {
        let pre = es.drop_last();
        let e = es.last();
        assert(egg_roundtrips(pre)) by {
            assert forall|i: int| 0 <= i < pre.len() implies {
                &&& 1 <= (#[trigger] pre[i]).0 < 0xFFFF - EGG_MOVE_SPECIES_OFFSET
                &&& forall|j: int| 0 <= j < pre[i].1.len() ==> pre[i].1[j] <= EGG_MOVE_SPECIES_OFFSET
            } by {
                assert(pre[i] == es[i]);
            }
        }
        lemma_entries_words_no_terminator(pre);
        assert(es[es.len() - 1] == e);
        let ws = entries_words(es);
        assert forall|k: int| 0 <= k < ws.len() implies #[trigger] ws[k] != EGG_MOVE_TERMINATOR by {
            let pw = entries_words(pre);
            if k < pw.len() {
                assert(ws[k] == pw[k]);
            } else if k == pw.len() {
                assert(ws[k] == entry_words(e)[0]);
            } else {
                assert(ws[k] == entry_words(e)[k - pw.len()]);
                assert(entry_words(e)[k - pw.len()] == e.1[k - pw.len() - 1]);
            }
        }
    }
}

proof fn lemma_egg_size(es: Seq<(u16, Seq<u16>)>)
    ensures
        egg_size(es) == 2 * entries_words(es).len() + 2,
    decreases es.len(),
{
    if es.len() > 0 {
        lemma_egg_size(es.drop_last());
    }
}

/// Law: a table written by `to_bytes` and read back by `from_binary` is the
/// same table, and the bytes written are `total_byte_size` long — for tables
/// whose species ids are 1..45534 and whose move ids are at most 20000.
pub proof fn egg_move_roundtrip(es: Seq<(u16, Seq<u16>)>)
    requires
        egg_roundtrips(es),
    ensures
        egg_writable(es),
        has_terminator(egg_encode(es)),
        forall|n: nat| #[trigger] terminated_at(egg_encode(es), n) ==> egg_decode(words_of(egg_encode(es), n)) == es,
        egg_encode(es).len() == egg_size(es),
{
    lemma_egg_move_roundtrip(es);
    assert forall|n: nat| #[trigger] terminated_at(egg_encode(es), n) implies egg_decode(words_of(egg_encode(es), n)) == es by {
        lemma_terminator_unique(egg_encode(es), n, entries_words(es).len());
    }
    assert forall|i: int| 0 <= i < es.len() implies (#[trigger] es[i]).0 + EGG_MOVE_SPECIES_OFFSET <= u16::MAX by {}
}

proof fn lemma_egg_move_roundtrip(es: Seq<(u16, Seq<u16>)>)
    requires
        egg_roundtrips(es),
    ensures
        terminated_at(egg_encode(es), entries_words(es).len()),
        egg_decode(words_of(egg_encode(es), entries_words(es).len())) == es,
        egg_encode(es).len() == egg_size(es),
{
    let ws = entries_words(es);
    let all = ws.push(EGG_MOVE_TERMINATOR);
    lemma_enc_words(all, Seq::empty());
    assert(egg_encode(es) + Seq::<u8>::empty() =~= egg_encode(es));
    lemma_entries_words_no_terminator(es);
    assert forall|k: int| 0 <= k < ws.len() implies word_at(egg_encode(es), k) != EGG_MOVE_TERMINATOR by {
        assert(word_at(egg_encode(es), k) == all[k]);
        assert(all[k] == ws[k]);
    }
    assert(word_at(egg_encode(es), ws.len() as int) == all[ws.len() as int]);
    assert(words_of(egg_encode(es), ws.len()) =~= ws) by {
        assert forall|k: int| 0 <= k < ws.len() implies words_of(egg_encode(es), ws.len())[k] == ws[k] by {
            assert(word_at(egg_encode(es), k) == all[k]);
        }
    }
    lemma_fold_entries(es);
    if es.len() > 0 {
        assert(es.drop_last().push(es.last()) =~= es);
    }
    lemma_egg_size(es);
}

// ----- simple format -----

/// The moves of a single-species table whose words before the terminator are `ws`.
pub open spec fn simple_encode(ms: Seq<u16>) -> Seq<u8> {
    enc_words(ms.push(EGG_MOVE_TERMINATOR))
}

impl EggMoveEntry {
    pub fn new(species_id: u16, move_ids: Vec<u16>) -> (e: Self)
        ensures
            e.species_id == species_id,
            e.move_ids@ == move_ids@,
    {
        Self { species_id, move_ids }
    }

    /// Byte size of this entry in the table format: its marker and its moves.
    pub fn byte_size(&self) -> (n: usize)
        requires
            2 + 2 * self.move_ids@.len() <= usize::MAX,
        ensures
            n == 2 + 2 * self.move_ids@.len(),
    {
        2 + (2 * self.move_ids.len())
    }

    /// Read a single-species move list: move words up to the terminator.
    /// The species is not stored in this format and reads as 0.
    pub fn from_binary_simple(data: &[u8]) -> (r: Result<Self, UxieError>)
        ensures
            match r {
                Ok(e) => exists|n: nat|
                    #[trigger] terminated_at(data@, n) && e.species_id == 0 && e.move_ids@
                        == words_of(data@, n),
                Err(e) => !has_terminator(data@) && e.spec_kind() == ErrorKind::UnexpectedEof,
            },
    {
        let mut move_ids: Vec<u16> = Vec::new();
        let mut off: usize = 0;
        loop
            invariant
                off % 2 == 0,
                off <= data@.len(),
                move_ids@ == words_of(data@, (off / 2) as nat),
                forall|k: int| 0 <= k < off / 2 ==> word_at(data@, k) != EGG_MOVE_TERMINATOR,
            decreases data@.len() - off,
        {
            if data.len() - off < 2 {
                proof {
                    assert forall|n: nat| !(#[trigger] terminated_at(data@, n)) by {
                        if terminated_at(data@, n) && n >= off / 2 {
                            assert(2 * n + 2 > data@.len());
                        }
                    }
                }
                return Err(UxieError::unexpected_eof());
            }
            let value = read_u16(data, off);
            if value == EGG_MOVE_TERMINATOR {
                assert(terminated_at(data@, (off / 2) as nat));
                return Ok(Self { species_id: 0, move_ids });
            }
            move_ids.push(value);
            off = off + 2;
            assert(move_ids@ =~= words_of(data@, (off / 2) as nat));
        }
    }

    /// Append the single-species format: the moves, then the terminator.
    pub fn to_binary_simple(&self, out: &mut Vec<u8>)
        ensures
            final(out)@ == old(out)@ + simple_encode(self.move_ids@),
    {
        let ghost start = out@;
        let mut i: usize = 0;
        while i < self.move_ids.len()
            invariant
                i <= self.move_ids@.len(),
                out@ == start + enc_words(self.move_ids@.take(i as int)),
            decreases self.move_ids@.len() - i,
        {
            push_u16(out, self.move_ids[i]);
            proof {
                assert(self.move_ids@.take(i + 1).drop_last() =~= self.move_ids@.take(i as int));
            }
            i = i + 1;
        }
        push_u16(out, EGG_MOVE_TERMINATOR);
        assert(self.move_ids@.take(i as int) =~= self.move_ids@);
        assert(self.move_ids@.push(EGG_MOVE_TERMINATOR).drop_last() =~= self.move_ids@);
    }

    /// The single-species format as bytes.
    pub fn to_bytes_simple(&self) -> (bytes: Vec<u8>)
        ensures
            bytes@ == simple_encode(self.move_ids@),
    {
        let mut buf = Vec::new();
        self.to_binary_simple(&mut buf);
        assert(buf@ =~= Seq::<u8>::empty() + simple_encode(self.move_ids@));
        buf
    }
}

/// Law: a single-species move list written by `to_bytes_simple` and read
/// back by `from_binary_simple` gives the same moves (species 0), and takes
/// two bytes per move plus the terminator — provided no move is `0xFFFF`.
pub proof fn egg_move_simple_roundtrip(ms: Seq<u16>)
    requires
        forall|j: int| 0 <= j < ms.len() ==> ms[j] != EGG_MOVE_TERMINATOR,
    ensures
        has_terminator(simple_encode(ms)),
        forall|n: nat| #[trigger] terminated_at(simple_encode(ms), n) ==> words_of(simple_encode(ms), n) == ms,
        simple_encode(ms).len() == 2 * (ms.len() + 1),
{
    lemma_simple_roundtrip(ms);
    assert forall|n: nat| #[trigger] terminated_at(simple_encode(ms), n) implies words_of(simple_encode(ms), n) == ms by {
        lemma_terminator_unique(simple_encode(ms), n, ms.len());
    }
}

proof fn lemma_simple_roundtrip(ms: Seq<u16>)
    requires
        forall|j: int| 0 <= j < ms.len() ==> ms[j] != EGG_MOVE_TERMINATOR,
    ensures
        terminated_at(simple_encode(ms), ms.len()),
        words_of(simple_encode(ms), ms.len()) == ms,
        simple_encode(ms).len() == 2 * (ms.len() + 1),
{
    let all = ms.push(EGG_MOVE_TERMINATOR);
    lemma_enc_words(all, Seq::empty());
    assert(simple_encode(ms) + Seq::<u8>::empty() =~= simple_encode(ms));
    assert forall|k: int| 0 <= k < ms.len() implies word_at(simple_encode(ms), k) != EGG_MOVE_TERMINATOR by {
        assert(word_at(simple_encode(ms), k) == all[k]);
    }
    assert(word_at(simple_encode(ms), ms.len() as int) == all[ms.len() as int]);
    assert(words_of(simple_encode(ms), ms.len()) =~= ms) by {
        assert forall|k: int| 0 <= k < ms.len() implies words_of(simple_encode(ms), ms.len())[k] == ms[k] by {
            assert(word_at(simple_encode(ms), k) == all[k]);
        }
    }
}

impl EggMoveData {
    /// Read a table: entries up to the terminator word. Trailing bytes are not read.
    pub fn from_binary(data: &[u8]) -> (r: Result<Self, UxieError>)
        ensures
            match r {
                Ok(d) => exists|n: nat|
                    #[trigger] terminated_at(data@, n) && d@ == egg_decode(words_of(data@, n)),
                Err(e) => !has_terminator(data@) && e.spec_kind() == ErrorKind::UnexpectedEof,
            },
    {
        let mut entries: Vec<EggMoveEntry> = Vec::new();
        let mut current: Option<EggMoveEntry> = None;
        let mut off: usize = 0;
        loop
            invariant
                off % 2 == 0,
                off <= data@.len(),
                (entries@.map_values(|e: EggMoveEntry| e@), match current {
                    Some(e) => Some(e@),
                    None => None::<(u16, Seq<u16>)>,
                }) == egg_fold((Seq::empty(), None), words_of(data@, (off / 2) as nat)),
                forall|k: int| 0 <= k < off / 2 ==> word_at(data@, k) != EGG_MOVE_TERMINATOR,
            decreases data@.len() - off,
        {
            if data.len() - off < 2 {
                proof {
                    assert forall|n: nat| !(#[trigger] terminated_at(data@, n)) by {
                        if terminated_at(data@, n) && n >= off / 2 {
                            assert(2 * n + 2 > data@.len());
                        }
                    }
                }
                return Err(UxieError::unexpected_eof());
            }
            let value = read_u16(data, off);
            let ghost ws = words_of(data@, (off / 2) as nat);
            let ghost ws2 = words_of(data@, (off / 2 + 1) as nat);
            assert(ws2.drop_last() =~= ws);
            assert(ws2.last() == value);
            if value == EGG_MOVE_TERMINATOR {
                assert(terminated_at(data@, (off / 2) as nat));
                let ghost before = entries@.map_values(|e: EggMoveEntry| e@);
                match current {
                    Some(e) => {
                        entries.push(e);
                    },
                    None => {},
                }
                assert(entries@.map_values(|e: EggMoveEntry| e@) =~= egg_decode(ws));
                return Ok(Self { entries });
            }
            let ghost before = entries@.map_values(|e: EggMoveEntry| e@);
            if value > EGG_MOVE_SPECIES_OFFSET {
                match current {
                    Some(e) => {
                        entries.push(e);
                    },
                    None => {},
                }
                current = Some(EggMoveEntry::new(value - EGG_MOVE_SPECIES_OFFSET, Vec::new()));
            } else {
                match current {
                    Some(mut e) => {
                        e.move_ids.push(value);
                        current = Some(e);
                    },
                    None => {
                        current = None;
                    },
                }
            }
            off = off + 2;
            assert(entries@.map_values(|e: EggMoveEntry| e@) =~= egg_fold((Seq::empty(), None), ws2).0);
        }
    }

    /// Append the table format of all entries and the terminator.
    pub fn to_binary(&self, out: &mut Vec<u8>)
        requires
            egg_writable(self@),
        ensures
            final(out)@ == old(out)@ + egg_encode(self@),
    {
        let ghost start = out@;
        let ghost es = self@;
        let mut i: usize = 0;
        while i < self.entries.len()
            invariant
                i <= self.entries@.len(),
                es == self@,
                egg_writable(es),
                out@ == start + enc_words(entries_words(es.take(i as int))),
            decreases self.entries@.len() - i,
        {
            let entry = &self.entries[i];
            assert(es[i as int] == entry@);
            let ghost mid = out@;
            push_u16(out, entry.species_id + EGG_MOVE_SPECIES_OFFSET);
            proof {
                let w = seq![(entry.species_id + EGG_MOVE_SPECIES_OFFSET) as u16];
                assert(w + entry.move_ids@.take(0) =~= w);
                assert(w.drop_last() =~= Seq::<u16>::empty());
                assert(enc_words(Seq::<u16>::empty()) =~= Seq::<u8>::empty());
                assert(enc_words(w) =~= enc_u16(w.last()));
            }
            let mut j: usize = 0;
            while j < entry.move_ids.len()
                invariant
                    j <= entry.move_ids@.len(),
                    out@ == mid + enc_words(seq![(entry.species_id + EGG_MOVE_SPECIES_OFFSET) as u16] + entry.move_ids@.take(j as int)),
                decreases entry.move_ids@.len() - j,
            {
                push_u16(out, entry.move_ids[j]);
                let ghost w = seq![(entry.species_id + EGG_MOVE_SPECIES_OFFSET) as u16];
                assert((w + entry.move_ids@.take(j + 1)).drop_last() =~= w + entry.move_ids@.take(j as int));
                j = j + 1;
            }
            proof {
                let w = seq![(entry.species_id + EGG_MOVE_SPECIES_OFFSET) as u16];
                assert(w.drop_last() =~= Seq::<u16>::empty());
                assert(entry.move_ids@.take(j as int) =~= entry.move_ids@);
                assert(es.take(i + 1).drop_last() =~= es.take(i as int));
                lemma_enc_words_append(entries_words(es.take(i as int)), entry_words(es[i as int]));
            }
            i = i + 1;
        }
        push_u16(out, EGG_MOVE_TERMINATOR);
        assert(es.take(i as int) =~= es);
        assert(entries_words(es).push(EGG_MOVE_TERMINATOR).drop_last() =~= entries_words(es));
    }

    /// The table format as bytes.
    pub fn to_bytes(&self) -> (bytes: Vec<u8>)
        requires
            egg_writable(self@),
        ensures
            bytes@ == egg_encode(self@),
    {
        let mut buf = Vec::new();
        self.to_binary(&mut buf);
        assert(buf@ =~= Seq::<u8>::empty() + egg_encode(self@));
        buf
    }

    /// The first entry of the species, if any.
    pub fn get_by_species(&self, species_id: u16) -> (r: Option<&EggMoveEntry>)
        ensures
            match r {
                Some(e) => exists|i: int|
                    0 <= i < self.entries@.len() && self.entries@[i] == *e && e.species_id
                        == species_id && forall|j: int|
                        0 <= j < i ==> (#[trigger] self.entries@[j]).species_id != species_id,
                None => forall|j: int|
                    0 <= j < self.entries@.len() ==> (#[trigger] self.entries@[j]).species_id
                        != species_id,
            },
    {
        let mut i: usize = 0;
        while i < self.entries.len()
            invariant
                i <= self.entries@.len(),
                forall|j: int| 0 <= j < i ==> (#[trigger] self.entries@[j]).species_id != species_id,
            decreases self.entries@.len() - i,
        {
            if self.entries[i].species_id == species_id {
                return Some(&self.entries[i]);
            }
            i = i + 1;
        }
        None
    }

    /// Whether the first entry of the species lists the move.
    #[verifier::loop_isolation(false)]
    pub fn can_learn(&self, species_id: u16, move_id: u16) -> (b: bool)
        ensures
            b == exists|i: int|
                0 <= i < self.entries@.len() && (#[trigger] self.entries@[i]).species_id
                    == species_id && (forall|j: int|
                    0 <= j < i ==> (#[trigger] self.entries@[j]).species_id != species_id)
                    && self.entries@[i].move_ids@.contains(move_id),
    {
        match self.get_by_species(species_id) {
            Some(e) => {
                let mut k: usize = 0;
                while k < e.move_ids.len()
                    invariant
                        k <= e.move_ids@.len(),
                        forall|j: int| 0 <= j < k ==> e.move_ids@[j] != move_id,
                    decreases e.move_ids@.len() - k,
                {
                    if e.move_ids[k] == move_id {
                        proof {
                            assert(e.move_ids@[k as int] == move_id);
                            let w = choose|w: int|
                                0 <= w < self.entries@.len() && self.entries@[w] == *e && e.species_id
                                    == species_id && forall|j: int|
                                    0 <= j < w ==> (#[trigger] self.entries@[j]).species_id
                                        != species_id;
                            assert(self.entries@[w].move_ids@.contains(move_id));
                        }
                        return true;
                    }
                    k = k + 1;
                }
                proof {
                    assert(!e.move_ids@.contains(move_id));
                    assert forall|i: int|
                        0 <= i < self.entries@.len() && (#[trigger] self.entries@[i]).species_id
                            == species_id && (forall|j: int|
                            0 <= j < i ==> (#[trigger] self.entries@[j]).species_id != species_id)
                        implies !self.entries@[i].move_ids@.contains(move_id) by {
                        let w = choose|w: int|
                            0 <= w < self.entries@.len() && self.entries@[w] == *e && e.species_id
                                == species_id && forall|j: int|
                                0 <= j < w ==> (#[trigger] self.entries@[j]).species_id
                                    != species_id;
                        if i < w {
                            assert(self.entries@[i].species_id != species_id);
                        } else if w < i {
                            assert(self.entries@[w].species_id != species_id);
                        }
                    }
                }
                false
            },
            None => false,
        }
    }

    /// Byte size of the table format: every entry and the terminator.
    pub fn total_byte_size(&self) -> (n: usize)
        requires
            egg_size(self@) <= usize::MAX,
        ensures
            n == egg_size(self@),
    {
        let ghost es = self@;
        let mut total: usize = 0;
        let mut i: usize = 0;
        proof {
            lemma_egg_size_monotone(es, 0);
        }
        while i < self.entries.len()
            invariant
                i <= self.entries@.len(),
                es == self@,
                egg_size(es) <= usize::MAX,
                total + 2 == egg_size(es.take(i as int)),
            decreases self.entries@.len() - i,
        {
            proof {
                assert(es.take(i + 1).drop_last() =~= es.take(i as int));
                assert(es.take(i + 1).last() == es[i as int]);
                lemma_egg_size_monotone(es, i + 1);
            }
            total = total + self.entries[i].byte_size();
            i = i + 1;
        }
        assert(es.take(i as int) =~= es);
        total + 2
    }
}

proof fn lemma_egg_size_monotone(es: Seq<(u16, Seq<u16>)>, k: int)
    requires
        0 <= k <= es.len(),
    ensures
        2 <= egg_size(es.take(k)) <= egg_size(es),
    decreases es.len(),
{
    if es.len() > 0 {
        if k == es.len() {
            assert(es.take(k) =~= es);
            lemma_egg_size_monotone(es.drop_last(), k - 1);
            assert(es.drop_last().take(k - 1) =~= es.drop_last());
        } else {
            lemma_egg_size_monotone(es.drop_last(), k);
            assert(es.drop_last().take(k) =~= es.take(k));
        }
    } else {
        assert(es.take(k) =~= es);
    }
}

proof fn lemma_egg_moves_fill(s: u16, p: Seq<u16>, ms: Seq<u16>)
    requires
        forall|j: int| 0 <= j < ms.len() ==> ms[j] <= 20000,
    ensures
        egg_fold((Seq::empty(), Some((s, p))), ms) == (Seq::<(u16, Seq<u16>)>::empty(), Some((s, p + ms))),
    decreases ms.len(),
{
    if ms.len() == 0 {
        assert(p + ms =~= p);
    } else {
        lemma_egg_moves_fill(s, p, ms.drop_last());
        assert(p + ms.drop_last() + seq![ms.last()] =~= p + ms);
        assert((p + ms.drop_last()).push(ms.last()) =~= p + ms);
    }
}

/// Law: in an egg move table a word above 20000 starts the entry of species
/// `word - 20000` and the words after it, up to the next such word, are its
/// moves: a species word followed by move words of at most 20000 reads as
/// that one entry. Writing an entry writes its species plus 20000, then its
/// moves, and the table ends with the word `0xFFFF`.
pub proof fn egg_entry_layout(s: u16, ms: Seq<u16>)
    requires
        0 < s,
        s as int + 20000 < 0xFFFF,
        forall|j: int| 0 <= j < ms.len() ==> ms[j] <= 20000,
    ensures
        egg_decode(seq![(s as int + 20000) as u16] + ms) == seq![(s, ms)],
        egg_encode(seq![(s, ms)]) == enc_words(seq![(s as int + 20000) as u16] + ms + seq![0xFFFFu16]),
{
    let w = (s as int + 20000) as u16;
    let init: EggState = (Seq::empty(), None);
    lemma_egg_fold_append(init, seq![w], ms);
    assert(seq![w].drop_last() =~= Seq::<u16>::empty());
    assert(egg_fold(init, Seq::<u16>::empty()) == init);
    assert(seq![w].last() == w);
    assert(egg_fold(init, seq![w]) == egg_step(init, w));
    assert(egg_step(init, w) == (Seq::<(u16, Seq<u16>)>::empty(), Some((s, Seq::<u16>::empty()))));
    lemma_egg_moves_fill(s, Seq::empty(), ms);
    assert(Seq::<u16>::empty() + ms =~= ms);
    assert(egg_decode(seq![w] + ms) =~= seq![(s, ms)]);
    let es = seq![(s, ms)];
    assert(es.drop_last() =~= Seq::<(u16, Seq<u16>)>::empty());
    assert(entries_words(es.drop_last()) =~= Seq::<u16>::empty());
    assert(es.last() == (s, ms));
    assert(entry_words((s, ms)) =~= seq![w] + ms);
    assert(entries_words(es) =~= seq![w] + ms);
    assert(entries_words(es).push(EGG_MOVE_TERMINATOR) =~= seq![w] + ms + seq![0xFFFFu16]);
}

} // verus!
