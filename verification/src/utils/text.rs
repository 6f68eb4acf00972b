//! Text helpers: Unicode white space, trimming, ASCII case folding,
//! decimal digits and the file-name parts of a path.
use vstd::prelude::*;

verus! {

/// `String::push`: appends `c`.
#[verifier::external_body]
pub(crate) fn push_char(s: &mut String, c: char)
    ensures
        final(s)@ == old(s)@.push(c),
{
    s.push(c);
}

/// Appends `t` to `s`.
pub fn push_str(s: &mut String, t: &str)
    ensures
        final(s)@ == old(s)@ + t@,
{
    s.append(t);
}

/// The characters with the Unicode `White_Space` property (what
/// `char::is_whitespace` tests).
pub open spec fn is_white_space(c: char) -> bool {
    let u = c as u32;
    (0x9 <= u <= 0xD) || u == 0x20 || u == 0x85 || u == 0xA0 || u == 0x1680 || (0x2000 <= u
        <= 0x200A) || u == 0x2028 || u == 0x2029 || u == 0x202F || u == 0x205F || u == 0x3000
}

/// Tests the Unicode `White_Space` property.
pub fn is_whitespace(c: char) -> (r: bool)
    ensures
        r == is_white_space(c),
{
    let u = c as u32;
    (0x9 <= u && u <= 0xD) || u == 0x20 || u == 0x85 || u == 0xA0 || u == 0x1680 || (0x2000 <= u
        && u <= 0x200A) || u == 0x2028 || u == 0x2029 || u == 0x202F || u == 0x205F || u == 0x3000
}

/// `s` without its leading white space.
pub open spec fn trim_start_spec(s: Seq<char>) -> Seq<char>
    decreases s.len(),
{
    if s.len() > 0 && is_white_space(s[0]) {
        trim_start_spec(s.drop_first())
    } else {
        s
    }
}

/// `s` without its trailing white space.
pub open spec fn trim_end_spec(s: Seq<char>) -> Seq<char>
    decreases s.len(),
{
    if s.len() > 0 && is_white_space(s.last()) {
        trim_end_spec(s.drop_last())
    } else {
        s
    }
}

/// `s` without leading and trailing white space (`str::trim`).
pub open spec fn trim_spec(s: Seq<char>) -> Seq<char> {
    trim_end_spec(trim_start_spec(s))
}

proof fn lemma_trim_start_skip(s: Seq<char>, i: int)
    requires
        0 <= i <= s.len(),
        forall|k: int| 0 <= k < i ==> is_white_space(#[trigger] s[k]),
    ensures
        trim_start_spec(s) == trim_start_spec(s.skip(i)),
    decreases i,
{
    if i > 0 {
        assert(s.drop_first().skip(i - 1) =~= s.skip(i));
        assert forall|k: int| 0 <= k < i - 1 implies is_white_space(#[trigger] s.drop_first()[k]) by {
            assert(s.drop_first()[k] == s[k + 1]);
        }
        lemma_trim_start_skip(s.drop_first(), i - 1);
    } else {
        assert(s.skip(0) =~= s);
    }
}

proof fn lemma_trim_end_take(s: Seq<char>, j: int)
    requires
        0 <= j <= s.len(),
        forall|k: int| j <= k < s.len() ==> is_white_space(#[trigger] s[k]),
    ensures
        trim_end_spec(s) == trim_end_spec(s.take(j)),
    decreases s.len() - j,
{
    if j < s.len() {
        assert(s.drop_last().take(j) =~= s.take(j));
        lemma_trim_end_take(s.drop_last(), j);
    } else {
        assert(s.take(j) =~= s);
    }
}

/// `s` without leading and trailing white space.
pub fn trim(s: &str) -> (r: String)
    ensures
        r@ == trim_spec(s@),
{
    let n = s.unicode_len();
    let mut i: usize = 0;
    while i < n && is_whitespace(s.get_char(i))
        invariant
            n == s@.len(),
            i <= n,
            forall|k: int| 0 <= k < i ==> is_white_space(#[trigger] s@[k]),
        decreases n - i,
    {
        i = i + 1;
    }
    proof {
        lemma_trim_start_skip(s@, i as int);
        if i < n {
            assert(s@.skip(i as int)[0] == s@[i as int]);
        } else {
            assert(s@.skip(i as int).len() == 0);
        }
    }
    let ghost t = s@.skip(i as int);
    let mut j: usize = n;
    while j > i && is_whitespace(s.get_char(j - 1))
        invariant
            n == s@.len(),
            i <= j <= n,
            t == s@.skip(i as int),
            forall|k: int| j <= k < n ==> is_white_space(#[trigger] s@[k]),
        decreases j - i,
    {
        j = j - 1;
    }
    proof {
        assert forall|k: int| j - i <= k < t.len() implies is_white_space(#[trigger] t[k]) by {
            assert(t[k] == s@[k + i]);
        }
        lemma_trim_end_take(t, j - i);
        let u = t.take(j - i);
        if j > i {
            assert(u.last() == s@[j - 1]);
        }
        assert(u =~= s@.subrange(i as int, j as int));
    }
    s.substring_char(i, j).to_string()
}

/// `c` in lower case when it is an ASCII capital letter.
pub open spec fn ascii_lower(c: char) -> char {
    if 'A' <= c <= 'Z' {
        ((c as u32) + 32) as char
    } else {
        c
    }
}

/// `c` in lower case when it is an ASCII capital letter
/// (`char::to_ascii_lowercase`).
pub fn to_ascii_lower(c: char) -> (r: char)
    ensures
        r == ascii_lower(c),
{
    if 'A' <= c && c <= 'Z' {
        ((c as u8) + 32) as char
    } else {
        c
    }
}

/// `a` and `b` are equal when ASCII letters are compared without case.
pub open spec fn eq_ignore_ascii_case_spec(a: Seq<char>, b: Seq<char>) -> bool {
    a.len() == b.len() && forall|i: int| 0 <= i < a.len() ==> ascii_lower(a[i]) == ascii_lower(b[i])
}

/// `str::eq_ignore_ascii_case`.
pub fn eq_ignore_ascii_case(a: &str, b: &str) -> (r: bool)
    ensures
        r == eq_ignore_ascii_case_spec(a@, b@),
{
    let n = a.unicode_len();
    if n != b.unicode_len() {
        return false;
    }
    let mut i: usize = 0;
    while i < n
        invariant
            n == a@.len(),
            n == b@.len(),
            i <= n,
            forall|k: int| 0 <= k < i ==> ascii_lower(a@[k]) == ascii_lower(b@[k]),
        decreases n - i,
    {
        if to_ascii_lower(a.get_char(i)) != to_ascii_lower(b.get_char(i)) {
            return false;
        }
        i = i + 1;
    }
    true
}

/// `a == b` for string slices.
pub fn str_eq(a: &str, b: &str) -> (r: bool)
    ensures
        r == (a@ == b@),
{
    let n = a.unicode_len();
    if n != b.unicode_len() {
        return false;
    }
    let mut i: usize = 0;
    while i < n
        invariant
            n == a@.len(),
            n == b@.len(),
            i <= n,
            forall|k: int| 0 <= k < i ==> a@[k] == b@[k],
        decreases n - i,
    {
        if a.get_char(i) != b.get_char(i) {
            return false;
        }
        i = i + 1;
    }
    assert(a@ =~= b@);
    true
}

/// The decimal digit character of `d` (below ten).
pub open spec fn digit_char(d: int) -> char {
    if d == 0 {
        '0'
    } else if d == 1 {
        '1'
    } else if d == 2 {
        '2'
    } else if d == 3 {
        '3'
    } else if d == 4 {
        '4'
    } else if d == 5 {
        '5'
    } else if d == 6 {
        '6'
    } else if d == 7 {
        '7'
    } else if d == 8 {
        '8'
    } else {
        '9'
    }
}

/// The decimal representation of `n`, without leading zeros.
pub open spec fn decimal(n: nat) -> Seq<char>
    decreases n,
{
    if n < 10 {
        seq![digit_char(n as int)]
    } else {
        decimal(n / 10).push(digit_char((n % 10) as int))
    }
}

/// The decimal digit character of `d`.
pub fn digit(d: u8) -> (r: char)
    requires
        d < 10,
    ensures
        r == digit_char(d as int),
{
    if d == 0 {
        '0'
    } else if d == 1 {
        '1'
    } else if d == 2 {
        '2'
    } else if d == 3 {
        '3'
    } else if d == 4 {
        '4'
    } else if d == 5 {
        '5'
    } else if d == 6 {
        '6'
    } else if d == 7 {
        '7'
    } else if d == 8 {
        '8'
    } else {
        '9'
    }
}

/// Appends the decimal representation of `n` to `s`.
pub fn push_decimal(s: &mut String, n: u128)
    ensures
        final(s)@ == old(s)@ + decimal(n as nat),
    decreases n,
{
    if n >= 10 {
        push_decimal(s, n / 10);
    }
    push_char(s, digit((n % 10) as u8));
    proof {
        if n >= 10 {
            assert(old(s)@ + decimal(n as nat) =~= old(s)@ + decimal((n / 10) as nat) + seq![
                digit_char((n % 10) as int),
            ]);
        }
    }
}

/// The characters after the last `/` of `s` (all of `s` when it has none).
pub open spec fn after_last_slash(s: Seq<char>) -> Seq<char>
    decreases s.len(),
{
    if s.len() == 0 || s.last() == '/' {
        Seq::empty()
    } else {
        after_last_slash(s.drop_last()).push(s.last())
    }
}

/// The file name of a path (`Path::file_name` on Unix and macOS, where `/`
/// is the only separator; a Windows path is read in the form that
/// `paths::portable_path` gives it): its last component, after trailing
/// slashes and `.` components, unless that is `..` or there is none.
pub open spec fn file_name_spec(s: Seq<char>) -> Option<Seq<char>>
    decreases s.len(),
{
    if s.len() == 0 {
        None
    } else if s.last() == '/' {
        file_name_spec(s.drop_last())
    } else {
        let c = after_last_slash(s);
        if c == seq!['.'] {
            file_name_spec(s.drop_last())
        } else if c == seq!['.', '.'] {
            None
        } else {
            Some(c)
        }
    }
}

/// The extension of a file name: what follows its last `.`, unless it has
/// no `.` or its only `.` starts it.
pub open spec fn name_extension(f: Seq<char>) -> Option<Seq<char>> {
    if exists|i: int| 0 < i < f.len() && f[i] == '.' {
        let d = choose|d: int|
            0 < d < f.len() && f[d] == '.' && forall|k: int| d < k < f.len() ==> f[k] != '.';
        Some(f.skip(d + 1))
    } else {
        None
    }
}

/// The extension of a path (`Path::extension`, with `/` as the only
/// separator).
pub open spec fn extension_spec(s: Seq<char>) -> Option<Seq<char>> {
    match file_name_spec(s) {
        Some(f) => name_extension(f),
        None => None,
    }
}

proof fn lemma_after_last_slash(s: Seq<char>, i: int)
    requires
        0 <= i <= s.len(),
        i == 0 || s[i - 1] == '/',
        forall|k: int| i <= k < s.len() ==> s[k] != '/',
    ensures
        after_last_slash(s) == s.skip(i),
    decreases s.len() - i,
{
    if i < s.len() {
        lemma_after_last_slash(s.drop_last(), i);
        assert(s.drop_last().skip(i).push(s.last()) =~= s.skip(i));
    } else {
        assert(s.skip(i).len() == 0);
        if s.len() > 0 {
            assert(s.last() == '/');
        }
    }
}

/// The file name of the path `s`, whose components `/` separates.
pub fn file_name(s: &str) -> (r: Option<String>)
    ensures
        r matches Some(f) ==> file_name_spec(s@) == Some(f@),
        r is None ==> file_name_spec(s@) is None,
{
    let n = s.unicode_len();
    let mut j: usize = n;
    assert(s@.take(n as int) =~= s@);
    loop
        invariant
            j <= n,
            n == s@.len(),
            file_name_spec(s@) == file_name_spec(s@.take(j as int)),
        decreases j,
    {
        if j == 0 {
            return None;
        }
        let ghost t = s@.take(j as int);
        if s.get_char(j - 1) == '/' {
            assert(t.drop_last() =~= s@.take(j - 1));
            j = j - 1;
        } else {
            let mut i: usize = j - 1;
            while i > 0 && s.get_char(i - 1) != '/'
                invariant
                    i < j <= n,
                    n == s@.len(),
                    forall|k: int| i <= k < j ==> s@[k] != '/',
                decreases i,
            {
                i = i - 1;
            }
            proof {
                assert forall|k: int| i <= k < t.len() implies t[k] != '/' by {
                    assert(t[k] == s@[k]);
                }
                lemma_after_last_slash(t, i as int);
                assert(t.skip(i as int) =~= s@.subrange(i as int, j as int));
            }
            let comp = s.substring_char(i, j);
            let len = j - i;
            if len == 1 && s.get_char(i) == '.' {
                proof {
                    assert(comp@ =~= seq!['.']);
                    assert(t.drop_last() =~= s@.take(j - 1));
                }
                j = j - 1;
            } else if len == 2 && s.get_char(i) == '.' && s.get_char(i + 1) == '.' {
                proof {
                    assert(comp@ =~= seq!['.', '.']);
                }
                return None;
            } else {
                proof {
                    if comp@ == seq!['.'] {
                        assert(comp@[0] == s@[i as int]);
                    }
                    if comp@ == seq!['.', '.'] {
                        assert(comp@[0] == s@[i as int]);
                        assert(comp@[1] == s@[i + 1]);
                    }
                }
                return Some(comp.to_string());
            }
        }
    }
}

/// The extension of the file name `f`.
pub fn extension_of_name(f: &str) -> (r: Option<String>)
    ensures
        r matches Some(e) ==> name_extension(f@) == Some(e@),
        r is None ==> name_extension(f@) is None,
{
    let n = f.unicode_len();
    let mut d: usize = n;
    while d > 0 && f.get_char(d - 1) != '.'
        invariant
            d <= n,
            n == f@.len(),
            forall|k: int| d <= k < n ==> f@[k] != '.',
        decreases d,
    {
        d = d - 1;
    }
    if d <= 1 {
        proof {
            if exists|i: int| 0 < i < f@.len() && f@[i] == '.' {
                let i = choose|i: int| 0 < i < f@.len() && f@[i] == '.';
                assert(i < d);
            }
        }
        None
    } else {
        proof {
            let dd = (d - 1) as int;
            assert(f@[dd] == '.');
            let c = choose|c: int|
                0 < c < f@.len() && f@[c] == '.' && forall|k: int| c < k < f@.len() ==> f@[k] != '.';
            assert(c == dd) by {
                if c < dd {
                    assert(f@[dd] != '.');
                }
                if c > dd {
                    assert(f@[c] != '.');
                }
            }
            assert(f@.subrange(d as int, n as int) =~= f@.skip(dd + 1));
        }
        Some(f.substring_char(d, n).to_string())
    }
}

/// The extension of the path `s` (`Path::extension`), whose components `/`
/// separates.
pub fn extension(s: &str) -> (r: Option<String>)
    ensures
        r matches Some(e) ==> extension_spec(s@) == Some(e@),
        r is None ==> extension_spec(s@) is None,
{
    match file_name(s) {
        Some(f) => extension_of_name(f.as_str()),
        None => None,
    }
}


/// The stem of a file name (`Path::file_stem`): the name without its
/// extension and the `.` before it.
pub open spec fn name_stem(f: Seq<char>) -> Seq<char> {
    match name_extension(f) {
        Some(e) => f.take(f.len() - e.len() - 1),
        None => f,
    }
}

/// The stem of a path's file name (`Path::file_stem`, with `/` as the only
/// separator).
pub open spec fn stem_spec(s: Seq<char>) -> Option<Seq<char>> {
    match file_name_spec(s) {
        Some(f) => Some(name_stem(f)),
        None => None,
    }
}

/// The stem of the file name `f`.
pub fn stem_of_name(f: &str) -> (r: String)
    ensures
        r@ == name_stem(f@),
{
    let n = f.unicode_len();
    let mut d: usize = n;
    while d > 0 && f.get_char(d - 1) != '.'
        invariant
            d <= n,
            n == f@.len(),
            forall|k: int| d <= k < n ==> f@[k] != '.',
        decreases d,
    {
        d = d - 1;
    }
    if d <= 1 {
        proof {
            if exists|i: int| 0 < i < f@.len() && f@[i] == '.' {
                let i = choose|i: int| 0 < i < f@.len() && f@[i] == '.';
                assert(i < d);
            }
            assert(f@.subrange(0, n as int) =~= f@);
        }
        f.substring_char(0, n).to_string()
    } else {
        proof {
            let dd = (d - 1) as int;
            assert(f@[dd] == '.');
            let c = choose|c: int|
                0 < c < f@.len() && f@[c] == '.' && forall|k: int| c < k < f@.len() ==> f@[k] != '.';
            assert(c == dd) by {
                if c < dd {
                    assert(f@[dd] != '.');
                }
                if c > dd {
                    assert(f@[c] != '.');
                }
            }
            assert(f@.subrange(0, dd) =~= f@.take(dd));
        }
        f.substring_char(0, d - 1).to_string()
    }
}

/// The stem of the path `s` (`Path::file_stem`), whose components `/`
/// separates.
pub fn file_stem(s: &str) -> (r: Option<String>)
    ensures
        r matches Some(t) ==> stem_spec(s@) == Some(t@),
        r is None ==> stem_spec(s@) is None,
{
    match file_name(s) {
        Some(f) => Some(stem_of_name(f.as_str())),
        None => None,
    }
}

} // verus!
