use vstd::prelude::*;

verus! {

/// The URI of the target playlist whose items are rewritten.
pub fn target_playlist_uri() -> (r: &'static str)
    ensures
        r@ == "spotify:playlist:7JrIBLVJEfpADiic1MKZy5"@,
{
    "spotify:playlist:7JrIBLVJEfpADiic1MKZy5"
}

/// An ASCII letter or digit (bytes 0-9, A-Z, a-z): the only bytes a
/// playlist identifier may hold.
pub open spec fn is_alnum(b: u8) -> bool {
    (48 <= b && b <= 57) || (65 <= b && b <= 90) || (97 <= b && b <= 122)
}

/// A well-formed playlist URI: the word `spotify`, a separator that is
/// either `:` or `/`, the word `playlist`, the same separator again, and
/// then the identifier, made of letters and digits with no further
/// separator. The identifier is everything after the second separator.
pub open spec fn valid_playlist_uri(s: Seq<u8>) -> bool {
    // bytes 0..7 spell `spotify`, 8..16 spell `playlist`,
    // 58 and 47 are `:` and `/`
    &&& s.len() >= 17
    &&& s[0] == 115
    &&& s[1] == 112
    &&& s[2] == 111
    &&& s[3] == 116
    &&& s[4] == 105
    &&& s[5] == 102
    &&& s[6] == 121
    &&& (s[7] == 58 || s[7] == 47)
    &&& s[8] == 112
    &&& s[9] == 108
    &&& s[10] == 97
    &&& s[11] == 121
    &&& s[12] == 108
    &&& s[13] == 105
    &&& s[14] == 115
    &&& s[15] == 116
    &&& s[16] == s[7]
    &&& forall|j: int| 17 <= j < s.len() ==> (#[trigger] s[j]) != s[7] && is_alnum(s[j])
}

/// The playlist identifier of a URI: what stands after `spotify:playlist:`,
/// when the URI is well formed.
pub open spec fn spec_playlist_id(s: Seq<u8>) -> Option<Seq<u8>> {
    if valid_playlist_uri(s) {
        Some(s.subrange(17, s.len() as int))
    } else {
        None
    }
}

/// Reads a playlist URI and hands back the bare playlist identifier, or
/// nothing when the URI is not well formed.
pub fn parse_playlist_uri(uri: &Vec<u8>) -> (r: Option<Vec<u8>>)
    ensures
        r.deep_view() == spec_playlist_id(uri@),
{
    if uri.len() < 17 {
        return None;
    }
    let sep = uri[7];
    if !(sep == 58 || sep == 47) {
        return None;
    }
    if !(uri[0] == 115 && uri[1] == 112 && uri[2] == 111 && uri[3] == 116 && uri[4] == 105
        && uri[5] == 102 && uri[6] == 121) {
        return None;
    }
    if !(uri[8] == 112 && uri[9] == 108 && uri[10] == 97 && uri[11] == 121 && uri[12] == 108
        && uri[13] == 105 && uri[14] == 115 && uri[15] == 116) {
        return None;
    }
    if uri[16] != sep {
        return None;
    }
    let mut id: Vec<u8> = Vec::new();
    let mut j: usize = 17;
    proof {
        assert(id@ =~= uri@.subrange(17, 17));
    }
    while j < uri.len()
        invariant
            17 <= j <= uri@.len(),
            uri@.len() >= 17,
            sep == uri@[7],
            forall|t: int| 17 <= t < j ==> (#[trigger] uri@[t]) != uri@[7] && is_alnum(uri@[t]),
            id@ == uri@.subrange(17, j as int),
        decreases uri@.len() - j,
    {
        let b = uri[j];
        if b == sep {
            return None;
        }
        let alnum = (48 <= b && b <= 57) || (65 <= b && b <= 90) || (97 <= b && b
            <= 122);
        if !alnum {
            return None;
        }
        id.push(b);
        proof {
            assert(id@ =~= uri@.subrange(17, j + 1));
        }
        j += 1;
    }
    proof {
        assert(valid_playlist_uri(uri@));
        assert(id@ =~= uri@.subrange(17, uri@.len() as int));
        assert(id.deep_view() =~= id@);
    }
    Some(id)
}

/// An ASCII whitespace byte: where a pasted redirect line ends.
pub open spec fn is_ws(b: u8) -> bool {
    b == 32 || b == 9 || b == 10 || b == 13
}

/// A byte that ends the query part of a redirect line: the start of a
/// fragment, or whitespace.
pub open spec fn is_query_end(b: u8) -> bool {
    b == 35 || is_ws(b)
}

/// The position of the first `?` of the line at or after `i`, or the
/// length of the line when none occurs before the query would end.
pub open spec fn first_question(s: Seq<u8>, i: int) -> int
    decreases s.len() - i when 0 <= i <= s.len()
{
    if i >= s.len() {
        s.len() as int
    } else if s[i] == 63 {
        i
    } else if is_query_end(s[i]) {
        s.len() as int
    } else {
        first_question(s, i + 1)
    }
}

/// The bytes of a parameter value: from `i` to the first `&`, fragment or
/// whitespace.
pub open spec fn value_at(s: Seq<u8>, i: int) -> Seq<u8>
    decreases s.len() - i when 0 <= i <= s.len()
{
    if i >= s.len() || s[i] == 38 || is_query_end(s[i]) {
        Seq::empty()
    } else {
        seq![s[i]] + value_at(s, i + 1)
    }
}

/// The parameter starting at `i` is the response-code parameter: its key,
/// up to the first `=`, is exactly `code`.
pub open spec fn has_code_key(s: Seq<u8>, i: int) -> bool {
    &&& i + 5 <= s.len()
    &&& s[i] == 99
    &&& s[i + 1] == 111
    &&& s[i + 2] == 100
    &&& s[i + 3] == 101
    &&& s[i + 4] == 61
}

/// Scans the query from position `i` for the response-code parameter;
/// `at_start` says whether `i` is the first byte of a parameter.
pub open spec fn code_scan(s: Seq<u8>, i: int, at_start: bool) -> Option<Seq<u8>>
    decreases s.len() - i when 0 <= i <= s.len()
{
    if i >= s.len() || is_query_end(s[i]) {
        None
    } else if at_start && has_code_key(s, i) {
        Some(value_at(s, i + 5))
    } else if s[i] == 38 {
        code_scan(s, i + 1, true)
    } else {
        code_scan(s, i + 1, false)
    }
}

/// The response code carried by a redirect line: the value of the first
/// `code` parameter of the line's query. The query runs from the first `?`
/// to the first fragment or whitespace; parameters are separated by `&`,
/// and a key ends at the first `=`.
pub open spec fn spec_response_code(s: Seq<u8>) -> Option<Seq<u8>> {
    let q = first_question(s, 0);
    if q >= s.len() {
        None
    } else {
        code_scan(s, q + 1, true)
    }
}

/// Extracts the authorization response code from a pasted redirect line,
/// or nothing when the line carries no `code` parameter.
pub fn extract_response_code(line: &Vec<u8>) -> (r: Option<Vec<u8>>)
    ensures
        r.deep_view() == spec_response_code(line@),
{
    let n = line.len();
    let mut q: usize = 0;
    while q < n && line[q] != 63 && !(line[q] == 35 || line[q] == 32 || line[q] == 9
        || line[q] == 10 || line[q] == 13)
        invariant
            0 <= q <= n == line@.len(),
            first_question(line@, 0) == first_question(line@, q as int),
        decreases n - q,
    {
        proof {
            assert(first_question(line@, q as int) == first_question(line@, q + 1));
        }
        q += 1;
    }
    if q == n || line[q] != 63 {
        proof {
            assert(first_question(line@, q as int) == line@.len());
        }
        return None;
    }
    proof {
        assert(first_question(line@, q as int) == q);
        assert(first_question(line@, 0) == q);
    }
    let mut i: usize = q + 1;
    let ghost whole = code_scan(line@, q + 1, true);
    proof {
        assert(spec_response_code(line@) == whole);
    }
    let mut at_start: bool = true;
    while i < n && !(line[i] == 35 || line[i] == 32 || line[i] == 9 || line[i] == 10
        || line[i] == 13)
        invariant
            q + 1 <= i <= n == line@.len(),
            whole == code_scan(line@, i as int, at_start),
            spec_response_code(line@) == whole,
        decreases n - i,
    {
        let key_here = at_start && n - i >= 5 && line[i] == 99 && line[i + 1] == 111 && line[i
            + 2] == 100 && line[i + 3] == 101 && line[i + 4] == 61;
        if key_here {
            let mut v: Vec<u8> = Vec::new();
            let mut j: usize = i + 5;
            proof {
                assert(v@ + value_at(line@, j as int) == value_at(line@, i + 5));
            }
            while j < n && !(line[j] == 38 || line[j] == 35 || line[j] == 32 || line[j]
                == 9 || line[j] == 10 || line[j] == 13)
                invariant
                    i + 5 <= j <= n == line@.len(),
                    v@ + value_at(line@, j as int) == value_at(line@, i + 5),
                decreases n - j,
            {
                proof {
                    assert(value_at(line@, j as int) == seq![line@[j as int]] + value_at(
                        line@,
                        j + 1,
                    ));
                    assert(v@.push(line@[j as int]) + value_at(line@, j + 1) =~= v@ + value_at(
                        line@,
                        j as int,
                    ));
                }
                v.push(line[j]);
                j += 1;
            }
            proof {
                assert(has_code_key(line@, i as int));
                assert(whole == Some(value_at(line@, i + 5)));
                assert(value_at(line@, j as int) =~= Seq::<u8>::empty());
                assert(v@ =~= value_at(line@, i + 5));
                assert(v.deep_view() =~= v@);
            }
            let r = Some(v);
            proof {
                assert(r.deep_view() == Some(value_at(line@, i + 5)));
            }
            return r;
        }
        let next_start = line[i] == 38;
        proof {
            assert(code_scan(line@, i as int, at_start) == code_scan(
                line@,
                i + 1,
                line@[i as int] == 38,
            ));
        }
        at_start = next_start;
        i += 1;
    }
    proof {
        assert(code_scan(line@, i as int, at_start) is None);
    }
    None
}

} // verus!
