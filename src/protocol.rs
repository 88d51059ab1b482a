use vstd::prelude::*;
use vstd::string::{StrSliceExecFns, StringExecFns};

verus! {

/// The prefix of the name of the section that holds a set's entries.
pub open spec fn section_prefix() -> Seq<char> {
    seq!['s', 'e', 't', '_']
}

/// The name of the section that holds the entries of set `set`.
pub open spec fn spec_section_name(set: Seq<char>) -> Seq<char> {
    section_prefix() + set
}

/// The linker's name for the boundary before the first byte of section `section`.
pub open spec fn spec_start_boundary(section: Seq<char>) -> Seq<char> {
    seq!['_', '_', 's', 't', 'a', 'r', 't', '_'] + section
}

/// The linker's name for the boundary after the last byte of section `section`.
pub open spec fn spec_stop_boundary(section: Seq<char>) -> Seq<char> {
    seq!['_', '_', 's', 't', 'o', 'p', '_'] + section
}

/// Returns the name of the section that the entries of set `set` are placed in.
pub fn section_name(set: &str) -> (r: String)
    ensures
        r@ == spec_section_name(set@),
{
    let mut r = "set_".to_owned();
    proof {
        reveal_strlit("set_");
    }
    r.append(set);
    r
}

/// Returns the name of the symbol that marks where the entries of set `set` begin.
pub fn start_symbol(set: &str) -> (r: String)
    ensures
        r@ == spec_start_boundary(spec_section_name(set@)),
{
    let mut r = "__start_".to_owned();
    proof {
        reveal_strlit("__start_");
    }
    let section = section_name(set);
    r.append(section.as_str());
    assert(r@ =~= spec_start_boundary(spec_section_name(set@)));
    r
}

/// Returns the name of the symbol that marks where the entries of set `set` end.
pub fn stop_symbol(set: &str) -> (r: String)
    ensures
        r@ == spec_stop_boundary(spec_section_name(set@)),
{
    let mut r = "__stop_".to_owned();
    proof {
        reveal_strlit("__stop_");
    }
    let section = section_name(set);
    r.append(section.as_str());
    assert(r@ =~= spec_stop_boundary(spec_section_name(set@)));
    r
}

/// Entries tagged for different sets never share a section, and so the
/// boundaries of different sets never coincide.
pub proof fn lemma_sets_have_own_sections(a: Seq<char>, b: Seq<char>)
    requires
        a != b,
    ensures
        spec_section_name(a) != spec_section_name(b),
        spec_start_boundary(spec_section_name(a)) != spec_start_boundary(spec_section_name(b)),
        spec_stop_boundary(spec_section_name(a)) != spec_stop_boundary(spec_section_name(b)),
{
    let p = section_prefix();
    if spec_section_name(a) == spec_section_name(b) {
        assert(spec_section_name(a).subrange(p.len() as int, spec_section_name(a).len() as int)
            =~= a);
        assert(spec_section_name(b).subrange(p.len() as int, spec_section_name(b).len() as int)
            =~= b);
    }
    let sa = spec_section_name(a);
    let sb = spec_section_name(b);
    if spec_start_boundary(sa) == spec_start_boundary(sb) {
        assert(spec_start_boundary(sa).subrange(8, spec_start_boundary(sa).len() as int) =~= sa);
        assert(spec_start_boundary(sb).subrange(8, spec_start_boundary(sb).len() as int) =~= sb);
    }
    if spec_stop_boundary(sa) == spec_stop_boundary(sb) {
        assert(spec_stop_boundary(sa).subrange(7, spec_stop_boundary(sa).len() as int) =~= sa);
        assert(spec_stop_boundary(sb).subrange(7, spec_stop_boundary(sb).len() as int) =~= sb);
    }
}

/// Whitespace that may surround the argument of an entry's attribute.
pub open spec fn is_space(c: char) -> bool {
    c == ' ' || c == '\t' || c == '\n' || c == '\r'
}

/// `s` without its leading whitespace.
pub open spec fn trim_start(s: Seq<char>) -> Seq<char>
    decreases s.len(),
{
    if s.len() > 0 && is_space(s[0]) {
        trim_start(s.drop_first())
    } else {
        s
    }
}

/// `s` without its trailing whitespace.
pub open spec fn trim_end(s: Seq<char>) -> Seq<char>
    decreases s.len(),
{
    if s.len() > 0 && is_space(s.last()) {
        trim_end(s.drop_last())
    } else {
        s
    }
}

/// `s` without its leading and trailing whitespace.
pub open spec fn trim(s: Seq<char>) -> Seq<char> {
    trim_end(trim_start(s))
}

/// A character that may begin a set's name.
pub open spec fn is_ident_start(c: char) -> bool {
    ('a' <= c && c <= 'z') || ('A' <= c && c <= 'Z') || c == '_'
}

/// A character that may follow the first one in a set's name.
pub open spec fn is_ident_continue(c: char) -> bool {
    is_ident_start(c) || ('0' <= c && c <= '9')
}

/// `s` is an identifier that can name a set: a letter or underscore, then
/// letters, digits and underscores; a lone underscore names nothing.
pub open spec fn is_ident(s: Seq<char>) -> bool {
    &&& s.len() > 0
    &&& is_ident_start(s[0])
    &&& forall|k: int| 1 <= k < s.len() ==> is_ident_continue(#[trigger] s[k])
    &&& s != seq!['_']
}

/// The argument of an entry's attribute once its surrounding whitespace and
/// one trailing comma are taken off.
pub open spec fn argument_body(args: Seq<char>) -> Seq<char> {
    let t = trim(args);
    if t.len() > 0 && t.last() == ',' {
        trim(t.drop_last())
    } else {
        t
    }
}

/// Why the argument of an entry's attribute names no set.
#[derive(Debug, Clone, Copy, PartialEq, Eq, Structural)]
pub enum SetNameError {
    /// No argument was given.
    Missing,
    /// The argument is not exactly one identifier.
    Malformed,
}

fn char_is_space(c: char) -> (r: bool)
    ensures
        r == is_space(c),
{
    c == ' ' || c == '\t' || c == '\n' || c == '\r'
}

fn char_is_ident_start(c: char) -> (r: bool)
    ensures
        r == is_ident_start(c),
{
    ('a' <= c && c <= 'z') || ('A' <= c && c <= 'Z') || c == '_'
}

fn char_is_ident_continue(c: char) -> (r: bool)
    ensures
        r == is_ident_continue(c),
{
    char_is_ident_start(c) || ('0' <= c && c <= '9')
}

fn chars_of(s: &str) -> (r: Vec<char>)
    ensures
        r@ == s@,
{
    let n = s.unicode_len();
    let mut v: Vec<char> = Vec::new();
    let mut i: usize = 0;
    while i < n
        invariant
            n == s@.len(),
            i <= n,
            v@ == s@.subrange(0, i as int),
        decreases n - i,
    {
        v.push(s.get_char(i));
        i = i + 1;
        assert(v@ =~= s@.subrange(0, i as int));
    }
    assert(v@ =~= s@);
    v
}

/// The positions in `v` of `v[lo..hi]` without its surrounding whitespace.
fn trim_range(v: &Vec<char>, lo: usize, hi: usize) -> (r: (usize, usize))
    requires
        lo <= hi <= v@.len(),
    ensures
        lo <= r.0 <= r.1 <= hi,
        v@.subrange(r.0 as int, r.1 as int) == trim(v@.subrange(lo as int, hi as int)),
{
    let mut i = lo;
    while i < hi && char_is_space(v[i])
        invariant
            lo <= i <= hi <= v@.len(),
            trim_start(v@.subrange(lo as int, hi as int)) == trim_start(
                v@.subrange(i as int, hi as int),
            ),
        decreases hi - i,
    {
        assert(v@.subrange(i as int, hi as int).drop_first() =~= v@.subrange(
            i + 1,
            hi as int,
        ));
        i = i + 1;
    }
    let mut j = hi;
    while j > i && char_is_space(v[j - 1])
        invariant
            lo <= i <= j <= hi <= v@.len(),
            trim_start(v@.subrange(lo as int, hi as int)) == v@.subrange(i as int, hi as int),
            trim_end(v@.subrange(i as int, hi as int)) == trim_end(
                v@.subrange(i as int, j as int),
            ),
        decreases j - i,
    {
        assert(v@.subrange(i as int, j as int).drop_last() =~= v@.subrange(
            i as int,
            j - 1,
        ));
        j = j - 1;
    }
    (i, j)
}

/// True when `v[lo..hi]` is an identifier.
fn ident_at(v: &Vec<char>, lo: usize, hi: usize) -> (r: bool)
    requires
        lo <= hi <= v@.len(),
    ensures
        r == is_ident(v@.subrange(lo as int, hi as int)),
{
    let ghost s = v@.subrange(lo as int, hi as int);
    if lo == hi || !char_is_ident_start(v[lo]) {
        return false;
    }
    if hi - lo == 1 && v[lo] == '_' {
        assert(s =~= seq!['_']);
        return false;
    }
    assert(s != seq!['_']) by {
        if s.len() == 1 {
            assert(s[0] == v@[lo as int]);
        }
    }
    let mut k = lo + 1;
    while k < hi
        invariant
            lo < k <= hi <= v@.len(),
            s == v@.subrange(lo as int, hi as int),
            forall|m: int| 1 <= m < k - lo ==> is_ident_continue(#[trigger] s[m]),
        decreases hi - k,
    {
        if !char_is_ident_continue(v[k]) {
            assert(!is_ident_continue(s[k - lo]));
            return false;
        }
        k = k + 1;
    }
    true
}

/// Reads the argument of an entry's attribute: the name of the one set that
/// the entry is tagged for.
///
/// The argument is one identifier, with whitespace around it and at most one
/// trailing comma. No argument at all is `Missing`; anything else that is not
/// one identifier (two names, stray punctuation, a name that begins with a
/// digit) is `Malformed`.
pub fn parse_set_name(args: &str) -> (r: Result<String, SetNameError>)
    ensures
        r is Ok <==> is_ident(argument_body(args@)),
        r matches Ok(name) ==> name@ == argument_body(args@),
        r == Err::<String, SetNameError>(SetNameError::Missing) <==> trim(args@).len() == 0,
        r == Err::<String, SetNameError>(SetNameError::Malformed) <==> (trim(args@).len() > 0
            && !is_ident(argument_body(args@))),
{
    let v = chars_of(args);
    assert(v@.subrange(0, v@.len() as int) =~= args@);
    let (lo, hi) = trim_range(&v, 0, v.len());
    if lo == hi {
        assert(argument_body(args@).len() == 0);
        return Err(SetNameError::Missing);
    }
    let ghost t = v@.subrange(lo as int, hi as int);
    let (lo2, hi2) = if v[hi - 1] == ',' {
        assert(t.drop_last() =~= v@.subrange(lo as int, hi - 1));
        trim_range(&v, lo, hi - 1)
    } else {
        (lo, hi)
    };
    assert(v@.subrange(lo2 as int, hi2 as int) == argument_body(args@));
    if ident_at(&v, lo2, hi2) {
        let name = args.substring_char(lo2, hi2).to_owned();
        Ok(name)
    } else {
        Err(SetNameError::Malformed)
    }
}

/// Computes what tagging an entry with the attribute argument `args`
/// decides: the section that the entry is placed in, named after the one set
/// that `args` names.
pub fn set_entry(args: &str) -> (r: Result<String, SetNameError>)
    ensures
        r is Ok <==> is_ident(argument_body(args@)),
        r matches Ok(section) ==> section@ == spec_section_name(argument_body(args@)),
        r == Err::<String, SetNameError>(SetNameError::Missing) <==> trim(args@).len() == 0,
        r == Err::<String, SetNameError>(SetNameError::Malformed) <==> (trim(args@).len() > 0
            && !is_ident(argument_body(args@))),
{
    match parse_set_name(args) {
        Ok(name) => Ok(section_name(name.as_str())),
        Err(e) => Err(e),
    }
}

} // verus!
