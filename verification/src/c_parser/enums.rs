//! C `enum` declarations.
use vstd::prelude::*;
use crate::map_header::c_format::{CharClass, in_class, run_len, run_end};
use crate::text::{
    chars_of, has_prefix_at, prefix_at, trim, trim_bounds, string_of, lines, next_line, int_from_str,
    parse_int_detailed,
};

verus! {

/// One enumerator, with its explicit value if it has one.
#[derive(Debug, Clone)]
pub struct CEnumVariant {
    pub name: String,
    pub value: Option<i64>,
}

/// An enum: its name, if any, and its enumerators in order.
#[derive(Debug, Clone)]
pub struct CEnum {
    pub name: Option<String>,
    pub variants: Vec<CEnumVariant>,
}

/// The value of every enumerator: its explicit value, or one more than the
/// one before it (0 for the first).
pub open spec fn enum_values(vs: Seq<CEnumVariant>) -> Seq<int>
    decreases vs.len(),
{
    if vs.len() == 0 {
        Seq::empty()
    } else {
        let pre = enum_values(vs.drop_last());
        let v = match vs.last().value {
            Some(x) => x as int,
            None => if pre.len() == 0 { 0 } else { pre.last() + 1 },
        };
        pre.push(v)
    }
}

proof fn lemma_enum_values(vs: Seq<CEnumVariant>, i: int)
    requires
        0 <= i < vs.len(),
    ensures
        enum_values(vs).len() == vs.len(),
        enum_values(vs.take(i + 1)) == enum_values(vs.take(i)).push(enum_values(vs)[i]),
        enum_values(vs)[i] == match vs[i].value {
            Some(x) => x as int,
            None => if i == 0 { 0 } else { enum_values(vs)[i - 1] + 1 },
        },
    decreases vs.len(),
{
    lemma_enum_values_len(vs);
    if i < vs.len() - 1 {
        lemma_enum_values(vs.drop_last(), i);
        assert(vs.drop_last().take(i + 1) =~= vs.take(i + 1));
        assert(vs.drop_last().take(i) =~= vs.take(i));
        assert(vs.drop_last()[i] == vs[i]);
        if i > 0 {
            assert(enum_values(vs)[i - 1] == enum_values(vs.drop_last())[i - 1]);
        }
    } else {
        assert(vs.take(i + 1) =~= vs);
        assert(vs.take(i) =~= vs.drop_last());
    }
}

proof fn lemma_enum_values_len(vs: Seq<CEnumVariant>)
    ensures
        enum_values(vs).len() == vs.len(),
    decreases vs.len(),
{
    if vs.len() > 0 {
        lemma_enum_values_len(vs.drop_last());
    }
}

/// The index of the first enumerator named `name`, or the count.
pub open spec fn first_named(vs: Seq<CEnumVariant>, name: Seq<char>) -> nat
    decreases vs.len(),
{
    if vs.len() == 0 {
        0
    } else if vs[0].name@ == name {
        0
    } else {
        1 + first_named(vs.drop_first(), name)
    }
}

/// The index of the first enumerator whose value is `value`, or the count.
pub open spec fn first_valued(vals: Seq<int>, value: int) -> nat
    decreases vals.len(),
{
    if vals.len() == 0 {
        0
    } else if vals[0] == value {
        0
    } else {
        1 + first_valued(vals.drop_first(), value)
    }
}

proof fn lemma_first_named_props(vs: Seq<CEnumVariant>, name: Seq<char>)
    ensures
        first_named(vs, name) <= vs.len(),
        first_named(vs, name) < vs.len() ==> vs[first_named(vs, name) as int].name@ == name,
        forall|k: int| 0 <= k < first_named(vs, name) ==> vs[k].name@ != name,
    decreases vs.len(),
{
    if vs.len() > 0 && vs[0].name@ != name {
        let t = vs.drop_first();
        lemma_first_named_props(t, name);
        assert forall|k: int| 0 <= k < first_named(vs, name) implies vs[k].name@ != name by {
            if k > 0 {
                assert(vs[k] == t[k - 1]);
            }
        }
    }
}

proof fn lemma_first_valued_props(vals: Seq<int>, value: int)
    ensures
        first_valued(vals, value) <= vals.len(),
        first_valued(vals, value) < vals.len() ==> vals[first_valued(vals, value) as int] == value,
        forall|k: int| 0 <= k < first_valued(vals, value) ==> vals[k] != value,
    decreases vals.len(),
{
    if vals.len() > 0 && vals[0] != value {
        let t = vals.drop_first();
        lemma_first_valued_props(t, value);
        assert forall|k: int| 0 <= k < first_valued(vals, value) implies vals[k] != value by {
            if k > 0 {
                assert(vals[k] == t[k - 1]);
            }
        }
    }
}

proof fn lemma_first_named(vs: Seq<CEnumVariant>, name: Seq<char>, i: nat)
    requires
        i <= vs.len(),
        forall|k: int| 0 <= k < i ==> vs[k].name@ != name,
        i == vs.len() || vs[i as int].name@ == name,
    ensures
        first_named(vs, name) == i,
    decreases i,
{
    if i > 0 {
        let t = vs.drop_first();
        assert forall|k: int| 0 <= k < i - 1 implies t[k].name@ != name by {
            assert(t[k] == vs[k + 1]);
        }
        if i < vs.len() {
            assert(t[i - 1] == vs[i as int]);
        }
        lemma_first_named(t, name, (i - 1) as nat);
    }
}

proof fn lemma_first_valued(vals: Seq<int>, value: int, i: nat)
    requires
        i <= vals.len(),
        forall|k: int| 0 <= k < i ==> vals[k] != value,
        i == vals.len() || vals[i as int] == value,
    ensures
        first_valued(vals, value) == i,
    decreases i,
{
    if i > 0 {
        let t = vals.drop_first();
        assert forall|k: int| 0 <= k < i - 1 implies t[k] != value by {
            assert(t[k] == vals[k + 1]);
        }
        if i < vals.len() {
            assert(t[i - 1] == vals[i as int]);
        }
        lemma_first_valued(t, value, (i - 1) as nat);
    }
}

/// Counting on from each enumerator before `stop` stays within `i64`.
pub open spec fn counts_fit(vs: Seq<CEnumVariant>, stop: nat) -> bool {
    forall|k: int| 0 <= k < stop && k < vs.len() ==> #[trigger] enum_values(vs)[k] < i64::MAX
}

impl CEnum {
    /// The value of the first enumerator named `name`.
    pub fn get_value(&self, name: &str) -> (r: Option<i64>)
        requires
            counts_fit(self.variants@, first_named(self.variants@, name@)),
        ensures
            r == (if first_named(self.variants@, name@) < self.variants@.len() {
                Some(enum_values(self.variants@)[first_named(self.variants@, name@) as int] as i64)
            } else {
                None
            }),
    {
        let ghost vs = self.variants@;
        let ghost stop = first_named(vs, name@);
        proof {
            lemma_enum_values_len(vs);
        }
        let mut current: i64 = 0;
        let mut i: usize = 0;
        while i < self.variants.len()
            invariant
                vs == self.variants@,
                stop == first_named(vs, name@),
                counts_fit(vs, stop),
                enum_values(vs).len() == vs.len(),
                i <= vs.len(),
                forall|k: int| 0 <= k < i ==> vs[k].name@ != name@,
                current == (if i == 0 { 0 } else { enum_values(vs)[i - 1] + 1 }),
            decreases vs.len() - i,
        {
            proof {
                lemma_enum_values(vs, i as int);
            }
            let v = &self.variants[i];
            if let Some(x) = v.value {
                current = x;
            }
            if crate::text::str_eq(v.name.as_str(), name) {
                proof {
                    lemma_first_named(vs, name@, i as nat);
                }
                return Some(current);
            }
            proof {
                lemma_first_named_props(vs, name@);
                assert(stop > i);
            }
            current = current + 1;
            i = i + 1;
        }
        proof {
            lemma_first_named(vs, name@, i as nat);
        }
        None
    }

    /// The name of the first enumerator whose value is `value`.
    pub fn get_name(&self, value: i64) -> (r: Option<&str>)
        requires
            counts_fit(self.variants@, first_valued(enum_values(self.variants@), value as int)),
        ensures
            ({
                let vals = enum_values(self.variants@);
                let k = first_valued(vals, value as int);
                match r {
                    Some(s) => k < vals.len() && s@ == self.variants@[k as int].name@,
                    None => k >= vals.len(),
                }
            }),
    {
        let ghost vs = self.variants@;
        let ghost vals = enum_values(vs);
        let ghost stop = first_valued(vals, value as int);
        proof {
            lemma_enum_values_len(vs);
        }
        let mut current: i64 = 0;
        let mut i: usize = 0;
        while i < self.variants.len()
            invariant
                vs == self.variants@,
                vals == enum_values(vs),
                stop == first_valued(vals, value as int),
                counts_fit(vs, stop),
                vals.len() == vs.len(),
                i <= vs.len(),
                forall|k: int| 0 <= k < i ==> vals[k] != value,
                current == (if i == 0 { 0 } else { vals[i - 1] + 1 }),
            decreases vs.len() - i,
        {
            proof {
                lemma_enum_values(vs, i as int);
            }
            let v = &self.variants[i];
            if let Some(x) = v.value {
                current = x;
            }
            if current == value {
                proof {
                    lemma_first_valued(vals, value as int, i as nat);
                }
                return Some(v.name.as_str());
            }
            proof {
                lemma_first_valued_props(vals, value as int);
                assert(stop > i);
            }
            current = current + 1;
            i = i + 1;
        }
        proof {
            lemma_first_valued(vals, value as int, i as nat);
        }
        None
    }
}



/// Law: `get_name` finds a value exactly when some enumerator has it, and,
/// the enumerator names being distinct, the name it gives is one that
/// `get_value` maps back to that value.
pub proof fn lemma_enum_name_value_inverse(vs: Seq<CEnumVariant>, x: int)
    requires
        forall|i: int, j: int| 0 <= i < j < vs.len() ==> vs[i].name@ != vs[j].name@,
    ensures
        ({
            let vals = enum_values(vs);
            let k = first_valued(vals, x);
            &&& (k >= vs.len() <==> forall|i: int| 0 <= i < vs.len() ==> vals[i] != x)
            &&& (k < vs.len() ==> first_named(vs, vs[k as int].name@) == k && vals[k as int] == x)
        }),
{
    let vals = enum_values(vs);
    lemma_enum_values_len(vs);
    lemma_first_valued_props(vals, x);
    let k = first_valued(vals, x);
    if k < vs.len() {
        let n = vs[k as int].name@;
        assert forall|j: int| 0 <= j < k implies vs[j].name@ != n by {}
        lemma_first_named(vs, n, k);
    }
}

// ----- reading an enum from source -----

/// `enum NAME { BODY }` (the name optional) starting at `p`: the bounds of
/// the name, if any, and of the body.
pub open spec fn enum_at(s: Seq<char>, p: int) -> Option<(Option<(int, int)>, int, int)> {
    if !(0 <= p && has_prefix_at(s, p, "enum"@)) {
        None
    } else {
        let w = p + 4 + run_len(s, p + 4, CharClass::Space);
        let (name, after) = if w < s.len() && in_class(s[w], CharClass::FieldStart) {
            let ne = w + 1 + run_len(s, w + 1, CharClass::FieldChar);
            (Some((w, ne)), ne + run_len(s, ne, CharClass::Space))
        } else {
            (None, w)
        };
        if !(after < s.len() && s[after] == '{') {
            None
        } else {
            let be = after + 1 + run_len(s, after + 1, CharClass::NotCloseBrace);
            if be > after + 1 && be < s.len() {
                Some((name, after + 1, be))
            } else {
                None
            }
        }
    }
}

/// The first enum from `p` on.
pub open spec fn first_enum(s: Seq<char>, p: int) -> Option<(Option<(int, int)>, int, int)>
    decreases s.len() - p,
{
    if p < 0 || p >= s.len() {
        None
    } else {
        match enum_at(s, p) {
            Some(e) => Some(e),
            None => first_enum(s, p + 1),
        }
    }
}

/// A line without any trailing commas.
pub open spec fn strip_commas(s: Seq<char>) -> Seq<char>
    decreases s.len(),
{
    if s.len() > 0 && s.last() == ',' {
        strip_commas(s.drop_last())
    } else {
        s
    }
}

/// Where the first identifier of `l` from `i` on starts.
pub open spec fn first_ident_from(l: Seq<char>, i: int) -> Option<int>
    decreases l.len() - i,
{
    if i < 0 || i >= l.len() {
        None
    } else if in_class(l[i], CharClass::FieldStart) {
        Some(i)
    } else {
        first_ident_from(l, i + 1)
    }
}

/// A decimal or `0x`/`0X` hexadecimal `i64`, or `None`.
pub open spec fn enum_literal(v: Seq<char>) -> Option<i64> {
    let r = if has_prefix_at(v, 0, "0x"@) || has_prefix_at(v, 0, "0X"@) {
        int_from_str(v.skip(2), 16, true, i64::MIN as int, i64::MAX as int)
    } else {
        int_from_str(v, 10, true, i64::MIN as int, i64::MAX as int)
    };
    match r {
        Ok(x) => Some(x as i64),
        Err(_) => None,
    }
}

/// The explicit value after the name ending at `ne`: `= value` up to the
/// next comma; `None` when there is none or it is no integer literal.
pub open spec fn variant_value(l: Seq<char>, ne: int) -> Option<i64> {
    let w = ne + run_len(l, ne, CharClass::Space);
    if w < l.len() && l[w] == '=' {
        let ve = w + 1 + run_len(l, w + 1, CharClass::LineValueChar);
        if ve > w + 1 {
            enum_literal(trim(l.subrange(w + 1, ve)))
        } else {
            None
        }
    } else {
        None
    }
}

/// The enumerator a body line declares: its first identifier and the value
/// after it; blank lines and `//` comments declare none.
pub open spec fn variant_line(line: Seq<char>) -> Option<(Seq<char>, Option<i64>)> {
    let l = strip_commas(trim(line));
    if l.len() == 0 || has_prefix_at(l, 0, "//"@) {
        None
    } else {
        match first_ident_from(l, 0) {
            None => None,
            Some(q) => {
                let ne = q + 1 + run_len(l, q + 1, CharClass::FieldChar);
                Some((l.subrange(q, ne), variant_value(l, ne)))
            },
        }
    }
}

/// The enumerators of the lines of a body.
pub open spec fn variants_of(ls: Seq<Seq<char>>) -> Seq<(Seq<char>, Option<i64>)>
    decreases ls.len(),
{
    if ls.len() == 0 {
        Seq::empty()
    } else {
        let rest = variants_of(ls.drop_last());
        match variant_line(ls.last()) {
            Some(v) => rest.push(v),
            None => rest,
        }
    }
}

/// The first enum of a source: its name and its enumerators.
pub open spec fn parsed_enum(s: Seq<char>) -> Option<(Option<Seq<char>>, Seq<(Seq<char>, Option<i64>)>)> {
    match first_enum(s, 0) {
        None => None,
        Some((name, b0, be)) => Some((
            match name {
                Some((a, z)) => Some(s.subrange(a, z)),
                None => None,
            },
            variants_of(lines(s.subrange(b0, be))),
        )),
    }
}

pub open spec fn variant_view(v: CEnumVariant) -> (Seq<char>, Option<i64>) {
    (v.name@, v.value)
}

fn enum_at_exec(v: &Vec<char>, p: usize) -> (r: Option<(Option<(usize, usize)>, usize, usize)>)
    requires
        p < v@.len(),
    ensures
        match r {
            Some((name, b0, be)) => enum_at(v@, p as int) == Some((
                match name {
                    Some((a, z)) => Some((a as int, z as int)),
                    None => None,
                },
                b0 as int,
                be as int,
            )) && b0 <= be <= v@.len() && (name matches Some((a, z)) ==> a <= z <= v@.len()),
            None => enum_at(v@, p as int) is None,
        },
{
    let n = v.len();
    if !prefix_at(v, p, n, "enum") {
        assert(v@.subrange(0, n as int) =~= v@);
        return None;
    }
    assert(v@.subrange(0, n as int) =~= v@);
    proof {
        reveal_strlit("enum");
    }
    let w = run_end(v, p + 4, CharClass::Space);
    let (name, after) = if w < n && crate::text::is_ident_start_char(v[w]) {
        let ne = run_end(v, w + 1, CharClass::FieldChar);
        let after = run_end(v, ne, CharClass::Space);
        (Some((w, ne)), after)
    } else {
        (None, w)
    };
    if !(after < n && v[after] == '{') {
        return None;
    }
    let be = run_end(v, after + 1, CharClass::NotCloseBrace);
    if be > after + 1 && be < n {
        Some((name, after + 1, be))
    } else {
        None
    }
}

fn strip_commas_exec(l: &Vec<char>, lo: usize, hi: usize) -> (e: usize)
    requires
        lo <= hi <= l@.len(),
    ensures
        lo <= e <= hi,
        l@.subrange(lo as int, e as int) == strip_commas(l@.subrange(lo as int, hi as int)),
{
    let mut e = hi;
    while e > lo && l[e - 1] == ','
        invariant
            lo <= e <= hi <= l@.len(),
            strip_commas(l@.subrange(lo as int, hi as int)) == strip_commas(l@.subrange(lo as int, e as int)),
        decreases e,
    {
        assert(l@.subrange(lo as int, e as int).drop_last() =~= l@.subrange(lo as int, e - 1));
        e = e - 1;
    }
    e
}

fn literal_exec(c: &Vec<char>, lo: usize, hi: usize) -> (r: Option<i64>)
    requires
        lo <= hi <= c@.len(),
    ensures
        r == enum_literal(c@.subrange(lo as int, hi as int)),
{
    let ghost t = c@.subrange(lo as int, hi as int);
    proof {
        reveal_strlit("0x");
        reveal_strlit("0X");
    }
    let is_hex = hi - lo >= 2 && c[lo] == '0' && (c[lo + 1] == 'x' || c[lo + 1] == 'X');
    assert(is_hex == (has_prefix_at(t, 0, "0x"@) || has_prefix_at(t, 0, "0X"@))) by {
        if hi - lo >= 2 {
            assert(t[0] == c@[lo as int] && t[1] == c@[lo + 1]);
            assert(c@[lo + 1] == 'x' ==> c@[lo as int] == '0' ==> t.subrange(0, 2) =~= "0x"@);
            assert(c@[lo + 1] == 'X' ==> c@[lo as int] == '0' ==> t.subrange(0, 2) =~= "0X"@);
            assert(t.subrange(0, 2) == "0x"@ ==> t.subrange(0, 2)[0] == '0' && t.subrange(0, 2)[1] == 'x');
            assert(t.subrange(0, 2) == "0X"@ ==> t.subrange(0, 2)[0] == '0' && t.subrange(0, 2)[1] == 'X');
        }
    }
    let r = if is_hex {
        assert(c@.subrange(lo + 2, hi as int) =~= t.skip(2));
        parse_int_detailed(c, lo + 2, hi, 16, true, -0x8000_0000_0000_0000, 0x7fff_ffff_ffff_ffff)
    } else {
        parse_int_detailed(c, lo, hi, 10, true, -0x8000_0000_0000_0000, 0x7fff_ffff_ffff_ffff)
    };
    match r {
        Ok(x) => Some(x as i64),
        Err(_) => None,
    }
}

/// The enumerator one body line declares.
fn variant_of_line(v: &Vec<char>, lo: usize, hi: usize) -> (r: Option<CEnumVariant>)
    requires
        lo <= hi <= v@.len(),
    ensures
        match r {
            Some(x) => variant_line(v@.subrange(lo as int, hi as int)) == Some(variant_view(x)),
            None => variant_line(v@.subrange(lo as int, hi as int)) is None,
        },
{
    let (a, z) = trim_bounds(v, lo, hi);
    let e = strip_commas_exec(v, a, z);
    // The stripped line, as its own characters.
    let mut l: Vec<char> = Vec::new();
    let mut k = a;
    while k < e
        invariant
            a <= k <= e <= v@.len(),
            l@ == v@.subrange(a as int, k as int),
        decreases e - k,
    {
        l.push(v[k]);
        k = k + 1;
        assert(l@ =~= v@.subrange(a as int, k as int));
    }
    let n = l.len();
    assert(l@.subrange(0, n as int) =~= l@);
    if n == 0 || prefix_at(&l, 0, n, "//") {
        return None;
    }
    let mut q: usize = 0;
    while q < n && !crate::text::is_ident_start_char(l[q])
        invariant
            q <= n == l@.len(),
            first_ident_from(l@, 0) == first_ident_from(l@, q as int),
        decreases n - q,
    {
        q = q + 1;
    }
    if q == n {
        return None;
    }
    let ne = run_end(&l, q + 1, CharClass::FieldChar);
    let name = string_of(&l, q, ne);
    let w = run_end(&l, ne, CharClass::Space);
    let value = if w < n && l[w] == '=' {
        let ve = run_end(&l, w + 1, CharClass::LineValueChar);
        if ve > w + 1 {
            let (ta, tz) = trim_bounds(&l, w + 1, ve);
            literal_exec(&l, ta, tz)
        } else {
            None
        }
    } else {
        None
    };
    Some(CEnumVariant { name, value })
}

/// The first enum of `v`.
fn find_enum(v: &Vec<char>) -> (r: Option<(Option<(usize, usize)>, usize, usize)>)
    ensures
        match r {
            Some((name, b0, be)) => first_enum(v@, 0) == Some((
                match name {
                    Some((a, z)) => Some((a as int, z as int)),
                    None => None,
                },
                b0 as int,
                be as int,
            )) && b0 <= be <= v@.len() && (name matches Some((a, z)) ==> a <= z <= v@.len()),
            None => first_enum(v@, 0) is None,
        },
{
    let n = v.len();
    let mut p: usize = 0;
    while p < n
        invariant
            p <= n == v@.len(),
            first_enum(v@, 0) == first_enum(v@, p as int),
        decreases n - p,
    {
        match enum_at_exec(v, p) {
            Some(e) => {
                return Some(e);
            },
            None => {
                p = p + 1;
            },
        }
    }
    None
}

/// Parse the first `enum` of a C source: its name, if it has one, and one
/// enumerator per body line (the first identifier of the line, with the
/// integer literal after `=`, if any). `None` when the source has no enum.
pub fn parse_enum(source: &str) -> (r: Option<CEnum>)
    ensures
        match r {
            Some(e) => parsed_enum(source@) matches Some((name, vs))
                && crate::c_parser::symbol_table::name_view(e.name) == name
                && e.variants@.map_values(|x: CEnumVariant| variant_view(x)) == vs,
            None => parsed_enum(source@) is None,
        },
{
    let v = chars_of(source);
    let n = v.len();
    let found = find_enum(&v);
    let (name_bounds, b0, be) = match found {
        Some(e) => e,
        None => {
            return None;
        },
    };
    let name = match name_bounds {
        Some((a, z)) => Some(string_of(&v, a, z)),
        None => None,
    };
    // The body's characters.
    let mut body: Vec<char> = Vec::new();
    let mut k = b0;
    while k < be
        invariant
            b0 <= k <= be <= v@.len(),
            body@ == v@.subrange(b0 as int, k as int),
        decreases be - k,
    {
        body.push(v[k]);
        k = k + 1;
        assert(body@ =~= v@.subrange(b0 as int, k as int));
    }
    let ghost ls = lines(body@);
    let mut variants: Vec<CEnumVariant> = Vec::new();
    let ghost mut done: nat = 0;
    let mut pos: usize = 0;
    assert(body@.skip(0) =~= body@);
    while pos < body.len()
        invariant
            pos <= body@.len(),
            done <= ls.len(),
            ls == lines(body@),
            lines(body@.skip(pos as int)) == ls.skip(done as int),
            variants@.map_values(|x: CEnumVariant| variant_view(x)) == variants_of(ls.take(done as int)),
        decreases body@.len() - pos,
    {
        let (l0, l1, next) = next_line(&body, pos);
        assert(done < ls.len() && ls[done as int] == body@.subrange(l0 as int, l1 as int)) by {
            assert(ls.skip(done as int).len() > 0);
            assert(ls.skip(done as int)[0] == ls[done as int]);
        }
        assert(ls.skip(done + 1 as int) =~= lines(body@.skip(next as int))) by {
            assert(ls.skip(done as int).drop_first() =~= ls.skip(done + 1 as int));
        }
        assert(ls.take(done + 1 as int).drop_last() =~= ls.take(done as int));
        let ghost before = variants@.map_values(|x: CEnumVariant| variant_view(x));
        match variant_of_line(&body, l0, l1) {
            Some(x) => {
                let ghost xv = variant_view(x);
                variants.push(x);
                assert(variants@.map_values(|x: CEnumVariant| variant_view(x)) =~= before.push(xv));
            },
            None => {},
        }
        pos = next;
        proof {
            done = done + 1;
        }
    }
    assert(ls.skip(done as int).len() == 0) by {
        assert(body@.skip(pos as int) =~= Seq::<char>::empty());
    }
    assert(ls.take(done as int) =~= ls);
    Some(CEnum { name, variants })
}

} // verus!
