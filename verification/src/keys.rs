//! Canonical keys: deriving a stable identifier from a record's URL and
//! sanitizing it for use as a file name.
//!
//! The key is the part of the URL after the first occurrence of the
//! `/wiki/` marker, with `.html` appended, and with the characters that
//! are hostile to filesystems (`/`, `:`, `*`) replaced by fixed escape
//! tokens.
use vstd::prelude::*;

verus! {

/// The marker in a record's URL after which the canonical key begins.
pub open spec fn wiki_marker() -> Seq<char> {
    seq!['/', 'w', 'i', 'k', 'i', '/']
}

/// The suffix appended to every canonical key.
pub open spec fn key_suffix() -> Seq<char> {
    seq!['.', 'h', 't', 'm', 'l']
}

/// The marker occurs in `s` at position `i`.
pub open spec fn marker_at(s: Seq<char>, i: int) -> bool {
    &&& 0 <= i
    &&& i + wiki_marker().len() <= s.len()
    &&& s.subrange(i, i + wiki_marker().len()) == wiki_marker()
}

/// Position of the first marker occurrence in `s` at or after `i`.
pub open spec fn find_marker_from(s: Seq<char>, i: int) -> Option<int>
    decreases s.len() - i
        when 0 <= i <= s.len()
{
    if i + wiki_marker().len() > s.len() {
        None
    } else if marker_at(s, i) {
        Some(i)
    } else {
        find_marker_from(s, i + 1)
    }
}

/// The canonical key derived from a URL: everything after the first
/// marker occurrence, with the fixed suffix appended; no key when the
/// URL holds no marker.
pub open spec fn key_of_url(url: Seq<char>) -> Option<Seq<char>> {
    match find_marker_from(url, 0) {
        None => None,
        Some(i) => Some(url.subrange(i + wiki_marker().len(), url.len() as int) + key_suffix()),
    }
}

/// What `find_marker_from` returns is the first occurrence at or after
/// the start of the search.
pub proof fn lemma_find_marker_from(s: Seq<char>, i: int)
    requires
        0 <= i <= s.len(),
    ensures
        match find_marker_from(s, i) {
            None => forall|j: int| i <= j ==> !marker_at(s, j),
            Some(k) => i <= k && marker_at(s, k) && forall|j: int| i <= j < k ==> !marker_at(s, j),
        },
    decreases s.len() - i,
{
    if i + wiki_marker().len() > s.len() {
        assert(forall|j: int| i <= j ==> !marker_at(s, j));
    } else if marker_at(s, i) {
    } else {
        lemma_find_marker_from(s, i + 1);
    }
}

/// The prefix of the message returned when a URL holds no marker.
pub open spec fn no_marker_note() -> Seq<char> {
    "no /wiki/ in "@
}

/// Derives the canonical key from a record's URL: the part after the
/// first `/wiki/` marker with `.html` appended. A URL without the
/// marker is rejected with a message naming it.
pub fn parse_url(url: &str) -> (r: Result<String, String>)
    ensures
        r is Ok <==> key_of_url(url@) is Some,
        r matches Ok(k) ==> Some(k@) == key_of_url(url@),
        r matches Err(m) ==> m@ == no_marker_note() + url@,
{
    let len = url.unicode_len();
    let mut found: Option<usize> = None;
    if len >= 6 {
        let mut i: usize = 0;
        while i <= len - 6 && found.is_none()
            invariant
                len == url@.len(),
                6 <= len,
                0 <= i <= len - 6 + 1,
                match found {
                    None => forall|j: int| 0 <= j < i ==> !marker_at(url@, j),
                    Some(k) => k == i && marker_at(url@, k as int) && forall|j: int|
                        0 <= j < k ==> !marker_at(url@, j),
                },
            decreases len - i + (if found is None { 1int } else { 0int }),
        {
            let m = url.get_char(i) == '/' && url.get_char(i + 1) == 'w' && url.get_char(i + 2)
                == 'i' && url.get_char(i + 3) == 'k' && url.get_char(i + 4) == 'i' && url.get_char(
                i + 5,
            ) == '/';
            if m {
                proof {
                    assert(url@.subrange(i as int, i + 6) =~= wiki_marker());
                }
                found = Some(i);
            } else {
                proof {
                    if marker_at(url@, i as int) {
                        assert(url@.subrange(i as int, i + 6)[0] == url@[i as int]);
                        assert(url@.subrange(i as int, i + 6)[1] == url@[i + 1]);
                        assert(url@.subrange(i as int, i + 6)[2] == url@[i + 2]);
                        assert(url@.subrange(i as int, i + 6)[3] == url@[i + 3]);
                        assert(url@.subrange(i as int, i + 6)[4] == url@[i + 4]);
                        assert(url@.subrange(i as int, i + 6)[5] == url@[i + 5]);
                    }
                }
                i = i + 1;
            }
        }
    }
    proof {
        lemma_find_marker_from(url@, 0);
        match found {
            None => {
                assert(forall|j: int| 0 <= j ==> j + 6 <= len ==> !marker_at(url@, j));
                assert(find_marker_from(url@, 0) is None);
            },
            Some(k) => {
                assert(find_marker_from(url@, 0) == Some(k as int));
            },
        }
    }
    match found {
        Some(k) => {
            let suffix = url.substring_char(k + 6, len);
            let key = String::from_str(suffix).concat(".html");
            proof {
                reveal_strlit(".html");
                assert(".html"@ =~= key_suffix());
            }
            Ok(key)
        },
        None => {
            let mut message = String::from_str("no /wiki/ in ");
            message.append(url);
            Err(message)
        },
    }
}

/// A character that must not appear in a file name.
pub open spec fn dangerous(c: char) -> bool {
    c == '/' || c == ':' || c == '*'
}

/// The replacement a single character sanitizes to.
pub open spec fn escape_char(c: char) -> Seq<char> {
    if c == '/' {
        seq!['_', '_']
    } else if c == ':' {
        seq!['_', '_', 'c', 'o', 'l', 'o', 'n', '_', '_']
    } else if c == '*' {
        seq!['_', '_', 's', 't', 'a', 'r', '_', '_']
    } else {
        seq![c]
    }
}

/// The sanitized form of a name: each character replaced by its escape.
pub open spec fn sanitize_spec(s: Seq<char>) -> Seq<char>
    decreases s.len(),
{
    if s.len() == 0 {
        Seq::empty()
    } else {
        escape_char(s[0]) + sanitize_spec(s.drop_first())
    }
}

/// Sanitization distributes over concatenation.
pub proof fn lemma_sanitize_concat(a: Seq<char>, b: Seq<char>)
    ensures
        sanitize_spec(a + b) == sanitize_spec(a) + sanitize_spec(b),
    decreases a.len(),
{
    if a.len() == 0 {
        assert(a + b =~= b);
        assert(sanitize_spec(a) + sanitize_spec(b) =~= sanitize_spec(b));
    } else {
        lemma_sanitize_concat(a.drop_first(), b);
        assert((a + b).drop_first() =~= a.drop_first() + b);
        assert(escape_char(a[0]) + (sanitize_spec(a.drop_first()) + sanitize_spec(b))
            =~= (escape_char(a[0]) + sanitize_spec(a.drop_first())) + sanitize_spec(b));
    }
}

/// Extending the input by one character appends that character's escape.
pub proof fn lemma_sanitize_snoc(s: Seq<char>, i: int)
    requires
        0 <= i < s.len(),
    ensures
        sanitize_spec(s.take(i + 1)) == sanitize_spec(s.take(i)) + escape_char(s[i]),
{
    lemma_sanitize_concat(s.take(i), seq![s[i]]);
    assert(s.take(i + 1) =~= s.take(i) + seq![s[i]]);
    let single = seq![s[i]];
    assert(single.drop_first() =~= Seq::<char>::empty());
    assert(sanitize_spec(single) == escape_char(single[0]) + sanitize_spec(single.drop_first()));
    assert(single[0] == s[i]);
    assert(escape_char(s[i]) + Seq::<char>::empty() =~= escape_char(s[i]));
}

/// Replaces every filesystem-hostile character of a name (`/`, `:`,
/// `*`) with its fixed escape token; every other character is kept.
pub fn sanitize_name(name: &str) -> (r: String)
    ensures
        r@ == sanitize_spec(name@),
{
    let len = name.unicode_len();
    let mut out = String::new();
    let mut i: usize = 0;
    while i < len
        invariant
            len == name@.len(),
            0 <= i <= len,
            out@ == sanitize_spec(name@.take(i as int)),
        decreases len - i,
    {
        let c = name.get_char(i);
        if c == '/' {
            out.append("__");
            proof {
                reveal_strlit("__");
                assert("__"@ =~= escape_char(c));
            }
        } else if c == ':' {
            out.append("__colon__");
            proof {
                reveal_strlit("__colon__");
                assert("__colon__"@ =~= escape_char(c));
            }
        } else if c == '*' {
            out.append("__star__");
            proof {
                reveal_strlit("__star__");
                assert("__star__"@ =~= escape_char(c));
            }
        } else {
            let piece = name.substring_char(i, i + 1);
            out.append(piece);
            proof {
                assert(piece@ =~= escape_char(c));
            }
        }
        proof {
            lemma_sanitize_snoc(name@, i as int);
        }
        i = i + 1;
    }
    proof {
        assert(name@.take(len as int) =~= name@);
    }
    out
}

/// Sanitization never collides two names that carry the same dangerous
/// characters at the same positions: if two distinct names differ only
/// at positions holding ordinary characters, their sanitized forms are
/// still distinct.
pub proof fn lemma_sanitize_keeps_distinct(k1: Seq<char>, k2: Seq<char>)
    requires
        k1.len() == k2.len(),
        forall|i: int| 0 <= i < k1.len() ==> (dangerous(k1[i]) <==> dangerous(k2[i])),
        forall|i: int| 0 <= i < k1.len() && dangerous(k1[i]) ==> k1[i] == k2[i],
        k1 != k2,
    ensures
        sanitize_spec(k1) != sanitize_spec(k2),
    decreases k1.len(),
{
    if k1.len() == 0 {
        assert(k1 =~= k2);
    } else if k1[0] == k2[0] {
        let t1 = k1.drop_first();
        let t2 = k2.drop_first();
        assert forall|i: int| 0 <= i < t1.len() implies (dangerous(t1[i]) <==> dangerous(
            t2[i],
        )) by {
            assert(t1[i] == k1[i + 1]);
            assert(t2[i] == k2[i + 1]);
        }
        assert forall|i: int| 0 <= i < t1.len() && dangerous(t1[i]) implies t1[i] == t2[i] by {
            assert(t1[i] == k1[i + 1]);
            assert(t2[i] == k2[i + 1]);
        }
        if t1 == t2 {
            assert forall|i: int| 0 <= i < k1.len() implies k1[i] == k2[i] by {
                if i > 0 {
                    assert(t1[i - 1] == k1[i]);
                    assert(t2[i - 1] == k2[i]);
                }
            }
            assert(k1 =~= k2);
        }
        lemma_sanitize_keeps_distinct(t1, t2);
        if sanitize_spec(k1) == sanitize_spec(k2) {
            let e = escape_char(k1[0]);
            assert(sanitize_spec(k1) == e + sanitize_spec(t1));
            assert(sanitize_spec(k2) == e + sanitize_spec(t2));
            assert forall|j: int| 0 <= j < sanitize_spec(t1).len() implies sanitize_spec(t1)[j]
                == sanitize_spec(t2)[j] by {
                assert((e + sanitize_spec(t1))[e.len() + j] == sanitize_spec(t1)[j]);
                assert((e + sanitize_spec(t2))[e.len() + j] == sanitize_spec(t2)[j]);
            }
            assert(sanitize_spec(t1) =~= sanitize_spec(t2));
        }
    } else {
        assert(!dangerous(k1[0]));
        assert(!dangerous(k2[0]));
        assert(sanitize_spec(k1)[0] == k1[0]);
        assert(sanitize_spec(k2)[0] == k2[0]);
    }
}

} // verus!
