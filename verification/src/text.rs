use vstd::prelude::*;

verus! {

// ---------------------------------------------------------------------------
// Bridges between `String` / `str` and vectors of characters.
//
// All character-level logic in this crate is verified over `Vec<char>` /
// `Seq<char>`; these two conversions are the only way a string's characters
// enter or leave that world.
// ---------------------------------------------------------------------------

/// Relies on str::chars: yields exactly the characters of the slice, in order.
#[verifier::external_body]
pub fn chars_of(s: &str) -> (r: Vec<char>)
    ensures
        r@ == s@,
{
    s.chars().collect()
}

/// Relies on String's FromIterator over char: the built string holds exactly
/// the given characters, in order.
#[verifier::external_body]
pub fn string_from_chars(v: &Vec<char>) -> (r: String)
    ensures
        r@ == v@,
{
    v.iter().collect()
}

/// The character sequence that str::to_lowercase produces; it depends on the
/// input characters alone.
pub uninterp spec fn lower_of(s: Seq<char>) -> Seq<char>;

/// Relies on str::to_lowercase: the lowercase mapping of the input, a pure
/// function of its characters.
#[verifier::external_body]
pub fn lowercase(s: &str) -> (r: String)
    ensures
        r@ == lower_of(s@),
{
    s.to_lowercase()
}

// ---------------------------------------------------------------------------
// Substring containment (verified).
// ---------------------------------------------------------------------------

/// `n` occurs contiguously somewhere in `h`.
pub open spec fn spec_contains(h: Seq<char>, n: Seq<char>) -> bool {
    exists|i: int| 0 <= i && i + n.len() <= h.len() && #[trigger] h.subrange(i, i + n.len()) == n
}

/// Does `n` occur in `h` starting exactly at position `i`?
fn occurs_at(h: &Vec<char>, n: &Vec<char>, i: usize) -> (r: bool)
    requires
        i + n@.len() <= h@.len(),
    ensures
        r == (h@.subrange(i as int, i + n@.len()) == n@),
{
    let hl: usize = h.len();
    let mut j: usize = 0;
    while j < n.len()
        invariant
            hl == h@.len(),
            i + n@.len() <= h@.len(),
            j <= n@.len(),
            forall|k: int| 0 <= k < j ==> h@[i + k] == n@[k],
        decreases n@.len() - j,
    {
        proof {
            assert(i + j < h@.len());
        }
        if h[i + j] != n[j] {
            proof {
                assert(h@.subrange(i as int, i + n@.len())[j as int] == h@[i + j]);
            }
            return false;
        }
        j += 1;
    }
    proof {
        assert(h@.subrange(i as int, i + n@.len()) =~= n@);
    }
    true
}

/// Substring search: does `n` occur contiguously in `h`?
pub fn contains_chars(h: &Vec<char>, n: &Vec<char>) -> (r: bool)
    ensures
        r == spec_contains(h@, n@),
{
    if n.len() == 0 {
        proof {
            assert(h@.subrange(0, 0 + n@.len() as int) =~= n@);
        }
        return true;
    }
    if n.len() > h.len() {
        return false;
    }
    let hl: usize = h.len();
    let last_start: usize = h.len() - n.len();
    let mut i: usize = 0;
    while i <= last_start
        invariant
            hl == h@.len(),
            1 <= n@.len() <= h@.len(),
            last_start == h@.len() - n@.len(),
            i <= last_start + 1,
            forall|k: int| 0 <= k < i ==> #[trigger] h@.subrange(k, k + n@.len()) != n@,
        decreases last_start + 1 - i,
    {
        if occurs_at(h, n, i) {
            return true;
        }
        i += 1;
    }
    false
}

/// Character-for-character equality of two texts.
pub fn chars_eq(a: &Vec<char>, b: &Vec<char>) -> (r: bool)
    ensures
        r == (a@ == b@),
{
    if a.len() != b.len() {
        return false;
    }
    let mut i: usize = 0;
    while i < a.len()
        invariant
            a@.len() == b@.len(),
            i <= a@.len(),
            forall|k: int| 0 <= k < i ==> a@[k] == b@[k],
        decreases a@.len() - i,
    {
        if a[i] != b[i] {
            return false;
        }
        i += 1;
    }
    proof {
        assert(a@ =~= b@);
    }
    true
}

// ---------------------------------------------------------------------------
// File-name and extension extraction (verified).
// ---------------------------------------------------------------------------

/// The part of a path after its last `/` (the whole path when it has none).
pub open spec fn file_name_of(s: Seq<char>) -> Seq<char>
    decreases s.len(),
{
    if s.len() == 0 {
        s
    } else if s[s.len() - 1] == '/' {
        Seq::<char>::empty()
    } else {
        file_name_of(s.drop_last()).push(s[s.len() - 1])
    }
}

proof fn lemma_file_name_suffix(s: Seq<char>, i: int)
    requires
        0 <= i <= s.len(),
        forall|k: int| i <= k < s.len() ==> s[k] != '/',
        i == 0 || s[i - 1] == '/',
    ensures
        file_name_of(s) == s.skip(i),
    decreases s.len(),
{
    if s.len() == 0 {
        assert(file_name_of(s) =~= s.skip(i));
    } else if i == s.len() {
        if i > 0 {
            assert(s[s.len() - 1] == '/');
            assert(file_name_of(s) =~= s.skip(i));
        } else {
            assert(s.len() == 0);
        }
    } else {
        assert(s[s.len() - 1] != '/');
        lemma_file_name_suffix(s.drop_last(), i);
        assert(file_name_of(s) == s.drop_last().skip(i).push(s[s.len() - 1]));
        assert(file_name_of(s) =~= s.skip(i));
    }
}

/// The characters after the last `/` of `s` (all of `s` when it has none).
pub fn file_name_chars(s: &Vec<char>) -> (r: Vec<char>)
    ensures
        r@ == file_name_of(s@),
{
    let mut i: usize = s.len();
    let mut has: bool = false;
    let mut start: usize = 0;
    while i > 0
        invariant
            i <= s@.len(),
            has == false ==> start == 0 && forall|k: int| i <= k < s@.len() ==> s@[k] != '/',
            has ==> 1 <= start <= s@.len() && s@[start - 1] == '/' && forall|k: int|
                start <= k < s@.len() ==> s@[k] != '/',
        decreases i,
    {
        if has == false && s[i - 1] == '/' {
            has = true;
            start = i;
        }
        i -= 1;
    }
    proof {
        lemma_file_name_suffix(s@, start as int);
    }
    let mut r: Vec<char> = Vec::new();
    let mut j: usize = start;
    while j < s.len()
        invariant
            start <= j <= s@.len(),
            r@ =~= s@.subrange(start as int, j as int),
        decreases s@.len() - j,
    {
        r.push(s[j]);
        j += 1;
    }
    proof {
        assert(r@ =~= s@.skip(start as int));
    }
    r
}

/// The extension of a file name, after std's rules: the part after the last
/// `.`, except that a leading `.` (a hidden file) starts no extension.
/// Empty when there is none.
pub open spec fn ext_opt(name: Seq<char>) -> Option<Seq<char>>
    decreases name.len(),
{
    if name.len() <= 1 {
        None
    } else if name[name.len() - 1] == '.' {
        Some(Seq::<char>::empty())
    } else {
        match ext_opt(name.drop_last()) {
            Some(e) => Some(e.push(name[name.len() - 1])),
            None => None,
        }
    }
}

pub open spec fn extension_of(name: Seq<char>) -> Seq<char> {
    match ext_opt(name) {
        Some(e) => e,
        None => Seq::<char>::empty(),
    }
}

proof fn lemma_ext_some(name: Seq<char>, d: int)
    requires
        1 <= d < name.len(),
        name[d] == '.',
        forall|k: int| d < k < name.len() ==> name[k] != '.',
    ensures
        ext_opt(name) == Some(name.skip(d + 1)),
    decreases name.len(),
{
    if d == name.len() - 1 {
        assert(ext_opt(name) == Some(Seq::<char>::empty()));
        assert(name.skip(d + 1) =~= Seq::<char>::empty());
    } else {
        assert(name[name.len() - 1] != '.');
        lemma_ext_some(name.drop_last(), d);
        assert(name.drop_last().skip(d + 1).push(name[name.len() - 1]) =~= name.skip(d + 1));
    }
}

proof fn lemma_ext_none(name: Seq<char>)
    requires
        forall|k: int| 1 <= k < name.len() ==> name[k] != '.',
    ensures
        ext_opt(name) is None,
    decreases name.len(),
{
    if name.len() <= 1 {
    } else {
        assert(name[name.len() - 1] != '.');
        lemma_ext_none(name.drop_last());
    }
}

/// The extension of a file name (empty when there is none).
pub fn extension_chars(name: &Vec<char>) -> (r: Vec<char>)
    ensures
        r@ == extension_of(name@),
{
    let mut i: usize = name.len();
    let mut has: bool = false;
    let mut d: usize = 0;
    while i > 1
        invariant
            i <= name@.len(),
            has == false ==> forall|k: int| i <= k < name@.len() ==> name@[k] != '.',
            has ==> 1 <= d < name@.len() && name@[d as int] == '.' && forall|k: int|
                d < k < name@.len() ==> name@[k] != '.',
        decreases i,
    {
        if has == false && name[i - 1] == '.' {
            has = true;
            d = i - 1;
        }
        i -= 1;
    }
    let mut r: Vec<char> = Vec::new();
    if has {
        proof {
            lemma_ext_some(name@, d as int);
        }
        let mut j: usize = d + 1;
        while j < name.len()
            invariant
                d + 1 <= j <= name@.len(),
                r@ =~= name@.subrange(d + 1, j as int),
            decreases name@.len() - j,
        {
            r.push(name[j]);
            j += 1;
        }
        proof {
            assert(r@ =~= name@.skip(d + 1));
        }
    } else {
        proof {
            lemma_ext_none(name@);
        }
    }
    r
}

// ---------------------------------------------------------------------------
// Decimal rendering of line numbers (verified).
// ---------------------------------------------------------------------------

pub open spec fn digit_char(d: nat) -> char {
    if d == 0 {
        '0'
    } else if d == 1 {
        '1'
    } else if d == 2 {
        '2'
    } else if d == 3 {
        '3'
    } else if d == 4 {
        '4'
    } else if d == 5 {
        '5'
    } else if d == 6 {
        '6'
    } else if d == 7 {
        '7'
    } else if d == 8 {
        '8'
    } else {
        '9'
    }
}

/// The decimal digits of `n`, most significant first.
pub open spec fn dec_digits(n: nat) -> Seq<char>
    decreases n,
{
    if n < 10 {
        seq![digit_char(n)]
    } else {
        dec_digits(n / 10).push(digit_char(n % 10))
    }
}

fn digit_to_char(d: usize) -> (c: char)
    requires
        d < 10,
    ensures
        c == digit_char(d as nat),
{
    if d == 0 {
        '0'
    } else if d == 1 {
        '1'
    } else if d == 2 {
        '2'
    } else if d == 3 {
        '3'
    } else if d == 4 {
        '4'
    } else if d == 5 {
        '5'
    } else if d == 6 {
        '6'
    } else if d == 7 {
        '7'
    } else if d == 8 {
        '8'
    } else {
        '9'
    }
}

fn dec_chars(n: usize) -> (r: Vec<char>)
    ensures
        r@ == dec_digits(n as nat),
    decreases n,
{
    if n < 10 {
        let mut r: Vec<char> = Vec::new();
        r.push(digit_to_char(n));
        proof {
            assert(r@ =~= dec_digits(n as nat));
        }
        r
    } else {
        let mut r = dec_chars(n / 10);
        r.push(digit_to_char(n % 10));
        r
    }
}

/// A line-number prefix: the decimal digits right-aligned in a field of
/// four characters, followed by one space.
pub open spec fn spec_line_no(n: nat) -> Seq<char> {
    let d = dec_digits(n);
    if d.len() >= 4 {
        d + seq![' ']
    } else {
        Seq::new((4 - d.len()) as nat, |i: int| ' ') + d + seq![' ']
    }
}

pub fn fmt_line_no(n: usize) -> (r: String)
    ensures
        r@ == spec_line_no(n as nat),
{
    let mut d = dec_chars(n);
    let dl: usize = d.len();
    let mut v: Vec<char> = Vec::new();
    let mut p: usize = dl;
    while p < 4
        invariant
            dl <= p,
            p <= 4 || p == dl,
            v@ =~= Seq::new((p - dl) as nat, |i: int| ' '),
        decreases 4 - p,
    {
        v.push(' ');
        p += 1;
    }
    v.append(&mut d);
    v.push(' ');
    proof {
        if dl >= 4 {
            assert(v@ =~= spec_line_no(n as nat));
        } else {
            assert(v@ =~= spec_line_no(n as nat));
        }
    }
    string_from_chars(&v)
}

// ---------------------------------------------------------------------------
// Splitting text into lines (verified), after str::lines' rules: lines are
// separated by `\n`, a `\r` directly before a separating `\n` is dropped,
// and a final line ending produces no extra empty line.
// ---------------------------------------------------------------------------

/// The first index at or after `i` holding `\n`, or the length when none does.
pub open spec fn find_newline(s: Seq<char>, i: int) -> int
    decreases s.len() - i,
{
    if i < 0 || i >= s.len() {
        s.len() as int
    } else if s[i] == '\n' {
        i
    } else {
        find_newline(s, i + 1)
    }
}

pub open spec fn strip_cr(l: Seq<char>) -> Seq<char> {
    if l.len() > 0 && l[l.len() - 1] == '\r' {
        l.drop_last()
    } else {
        l
    }
}

pub open spec fn spec_lines_from(s: Seq<char>, i: int) -> Seq<Seq<char>>
    decreases s.len() - i,
{
    if i < 0 || i >= s.len() {
        Seq::<Seq<char>>::empty()
    } else {
        let j = find_newline(s, i);
        let rest = if j + 1 <= s.len() && i <= j {
            spec_lines_from(s, j + 1)
        } else {
            Seq::<Seq<char>>::empty()
        };
        let raw = s.subrange(i, j);
        let line = if j < s.len() {
            strip_cr(raw)
        } else {
            raw
        };
        seq![line] + rest
    }
}

/// The lines of a text, as str::lines yields them.
pub open spec fn spec_lines(s: Seq<char>) -> Seq<Seq<char>> {
    spec_lines_from(s, 0)
}

proof fn lemma_find_newline_at(s: Seq<char>, i: int, j: int)
    requires
        0 <= i <= j <= s.len(),
        forall|k: int| i <= k < j ==> s[k] != '\n',
        j == s.len() || s[j] == '\n',
    ensures
        find_newline(s, i) == j,
    decreases j - i,
{
    if i < j {
        lemma_find_newline_at(s, i + 1, j);
    }
}

fn find_nl_exec(cs: &Vec<char>, i: usize) -> (j: usize)
    requires
        i <= cs@.len(),
    ensures
        j == find_newline(cs@, i as int),
        i <= j <= cs@.len(),
{
    let mut j: usize = i;
    while j < cs.len()
        invariant
            i <= j <= cs@.len(),
            forall|k: int| i <= k < j ==> cs@[k] != '\n',
        decreases cs@.len() - j,
    {
        if cs[j] == '\n' {
            proof {
                lemma_find_newline_at(cs@, i as int, j as int);
            }
            return j;
        }
        j += 1;
    }
    proof {
        lemma_find_newline_at(cs@, i as int, j as int);
    }
    j
}

/// Split a text into its lines.
pub fn split_lines(content: &str) -> (r: Vec<String>)
    ensures
        r.deep_view() == spec_lines(content@),
{
    let cs = chars_of(content);
    let cl: usize = cs.len();
    let mut out: Vec<String> = Vec::new();
    let mut i: usize = 0;
    while i < cl
        invariant
            cl == cs@.len(),
            cs@ == content@,
            i <= cl,
            out.deep_view() + spec_lines_from(cs@, i as int) == spec_lines(cs@),
        decreases cl - i,
    {
        let j = find_nl_exec(&cs, i);
        let mut lv: Vec<char> = Vec::new();
        let mut k: usize = i;
        while k < j
            invariant
                i <= k <= j <= cs@.len(),
                lv@ =~= cs@.subrange(i as int, k as int),
            decreases j - k,
        {
            lv.push(cs[k]);
            k += 1;
        }
        let terminated = j < cl;
        if terminated && lv.len() > 0 && lv[lv.len() - 1] == '\r' {
            lv.pop();
            proof {
                assert(lv@ =~= strip_cr(cs@.subrange(i as int, j as int)));
            }
        }
        let line = string_from_chars(&lv);
        proof {
            let ghost prev = out.deep_view();
            assert(spec_lines_from(cs@, i as int) == seq![line@] + (if j < cs@.len() {
                spec_lines_from(cs@, j + 1)
            } else {
                Seq::<Seq<char>>::empty()
            }));
        }
        out.push(line);
        proof {
            assert(out.deep_view() =~= out.deep_view().drop_last().push(line@));
            assert(out.deep_view().drop_last() + (seq![line@] + (if j < cs@.len() {
                spec_lines_from(cs@, j + 1)
            } else {
                Seq::<Seq<char>>::empty()
            })) =~= out.deep_view() + (if j < cs@.len() {
                spec_lines_from(cs@, j + 1)
            } else {
                Seq::<Seq<char>>::empty()
            }));
        }
        if terminated {
            i = j + 1;
        } else {
            i = cl;
            proof {
                assert(spec_lines_from(cs@, i as int) =~= Seq::<Seq<char>>::empty());
                assert(out.deep_view() + Seq::<Seq<char>>::empty() =~= out.deep_view());
            }
        }
    }
    proof {
        assert(spec_lines_from(cs@, i as int) =~= Seq::<Seq<char>>::empty());
        assert(out.deep_view() + Seq::<Seq<char>>::empty() =~= out.deep_view());
    }
    out
}

} // verus!
