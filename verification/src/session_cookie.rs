// Reading the session of a client from the cookies its browser sent with the WebSocket
// handshake. The session cookie is private: its value is encrypted with the server key.

use vstd::prelude::*;

use vstd::string::StringSliceAdditionalSpecFns;

use crate::util::str_eq;

verus! {

pub open spec fn get_secret_key_spec() -> Seq<char> {
    "ahY8aec0mohjei8nu7bu4ohpuowooqu7uam0chaiquechoo1ii7aedoh4quouru3ziPeehiujethangath9kahphoo0kohhuewaew2ODohgie1Teuxe0Ziemacei1ya6eemeis9laay7WooyaeK8Eed7tai7Doh5eiChieshiep7aequoraceiquoY1yuh9iefeecae9vioc8xee4quei6aiN2oobiile6aemoo3suT8Ahyi8kee0oht7daewud6OoKueg3aebahWahgahheiYai0hai1thaePhae0aet8aequee0aiGhohn0gaizoogh9vohV5ceebu7aeheecoo6ingaikozahnaihaey8ohjad2aetoa7voothi3ieS2KeirachieQu4vih8tah4xeong8oufeife7eeveem1yooqu4rai9eenool0xohbiu7Eex2aiP1Aeh2koh8xiecooriohuu8miephohp5fiengaeX8zanu7Ith3ooyaeNg9"@
}

/// The server's secret cookie key.
pub fn get_secret_key() -> (r: &'static str)
    ensures
        r@ == get_secret_key_spec(),
        r.spec_bytes().len() >= 64,
{
    let key = "ahY8aec0mohjei8nu7bu4ohpuowooqu7uam0chaiquechoo1ii7aedoh4quouru3ziPeehiujethangath9kahphoo0kohhuewaew2ODohgie1Teuxe0Ziemacei1ya6eemeis9laay7WooyaeK8Eed7tai7Doh5eiChieshiep7aequoraceiquoY1yuh9iefeecae9vioc8xee4quei6aiN2oobiile6aemoo3suT8Ahyi8kee0oht7daewud6OoKueg3aebahWahgahheiYai0hai1thaePhae0aet8aequee0aiGhohn0gaizoogh9vohV5ceebu7aeheecoo6ingaikozahnaihaey8ohjad2aetoa7voothi3ieS2KeirachieQu4vih8tah4xeong8oufeife7eeveem1yooqu4rai9eenool0xohbiu7Eex2aiP1Aeh2koh8xiecooriohuu8miephohp5fiengaeX8zanu7Ith3ooyaeNg9";
    proof {
        reveal_strlit("ahY8aec0mohjei8nu7bu4ohpuowooqu7uam0chaiquechoo1ii7aedoh4quouru3ziPeehiujethangath9kahphoo0kohhuewaew2ODohgie1Teuxe0Ziemacei1ya6eemeis9laay7WooyaeK8Eed7tai7Doh5eiChieshiep7aequoraceiquoY1yuh9iefeecae9vioc8xee4quei6aiN2oobiile6aemoo3suT8Ahyi8kee0oht7daewud6OoKueg3aebahWahgahheiYai0hai1thaePhae0aet8aequee0aiGhohn0gaizoogh9vohV5ceebu7aeheecoo6ingaikozahnaihaey8ohjad2aetoa7voothi3ieS2KeirachieQu4vih8tah4xeong8oufeife7eeveem1yooqu4rai9eenool0xohbiu7Eex2aiP1Aeh2koh8xiecooriohuu8miephohp5fiengaeX8zanu7Ith3ooyaeNg9");
        broadcast use vstd::string::group_string_axioms;
        assert(vstd::string::is_ascii(key));
    }
    key
}

/// The name and value of a cookie parsed from `piece`, when it parses.
pub uninterp spec fn spec_parse_cookie(piece: Seq<char>) -> Option<(Seq<char>, Seq<char>)>;

/// The plaintext of a private cookie, when it authenticates and decrypts under `key`.
pub uninterp spec fn spec_private_cookie_value(
    key: Seq<char>,
    name: Seq<char>,
    value: Seq<char>,
) -> Option<Seq<char>>;

/// The position of the leftmost occurrence of `sep` in `s` at or after `from`.
pub open spec fn spec_find_from(s: Seq<char>, sep: Seq<char>, from: int) -> Option<int>
    decreases s.len() - from,
{
    if from < 0 || from >= s.len() || from + sep.len() > s.len() {
        None
    } else if s.subrange(from, from + sep.len()) == sep {
        Some(from)
    } else {
        spec_find_from(s, sep, from + 1)
    }
}

/// The pieces of `s` between the occurrences of a non-empty `sep`, taken leftmost first
/// and without overlap: the piece before the first occurrence, then the pieces of what
/// follows it. A string without `sep` is one piece. (An empty `sep` is not split on.)
pub open spec fn spec_split(s: Seq<char>, sep: Seq<char>) -> Seq<Seq<char>>
    decreases s.len(),
{
    if sep.len() == 0 {
        seq![s]
    } else {
        match spec_find_from(s, sep, 0) {
            None => seq![s],
            Some(k) => if 0 <= k && k + sep.len() <= s.len() {
                seq![s.subrange(0, k)] + spec_split(s.subrange(k + sep.len(), s.len() as int), sep)
            } else {
                seq![s]
            },
        }
    }
}

/// Pieces joined back with a separator between each two.
pub open spec fn join_with(pieces: Seq<Seq<char>>, sep: Seq<char>) -> Seq<char>
    decreases pieces.len(),
{
    if pieces.len() == 0 {
        Seq::empty()
    } else if pieces.len() == 1 {
        pieces[0]
    } else {
        pieces[0] + sep + join_with(pieces.drop_first(), sep)
    }
}

proof fn lemma_find_from(s: Seq<char>, sep: Seq<char>, from: int)
    ensures
        spec_find_from(s, sep, from) matches Some(k) ==> from <= k && k + sep.len() <= s.len()
            && s.subrange(k, k + sep.len()) == sep,
    decreases s.len() - from,
{
    if !(from < 0 || from >= s.len() || from + sep.len() > s.len()) && s.subrange(from, from + sep.len()) != sep {
        lemma_find_from(s, sep, from + 1);
    }
}

/// Splitting gives at least one piece, and the pieces joined back with the separator give
/// the string again.
pub proof fn lemma_split_joins(s: Seq<char>, sep: Seq<char>)
    ensures
        spec_split(s, sep).len() >= 1,
        join_with(spec_split(s, sep), sep) == s,
    decreases s.len(),
{
    if sep.len() > 0 {
        lemma_find_from(s, sep, 0);
        if let Some(k) = spec_find_from(s, sep, 0) {
            let rest = s.subrange(k + sep.len(), s.len() as int);
            lemma_split_joins(rest, sep);
            let pieces = seq![s.subrange(0, k)] + spec_split(rest, sep);
            assert(pieces.drop_first() =~= spec_split(rest, sep));
            assert(s.subrange(0, k) + sep + rest =~= s);
        }
    }
}

/// `str::split` with a non-empty separator, collected into strings. As the documentation
/// of `str::split` and `str::match_indices` gives it, the string is cut at the occurrences
/// of the separator found from the left, an overlapping occurrence counting only where it
/// starts first.
#[verifier::external_body]
fn split(s: &str, sep: &str) -> (r: Vec<String>)
    requires
        sep@.len() > 0,
    ensures
        r@.map_values(|p: String| p@) == spec_split(s@, sep@),
{
    s.split(sep).map(|p| p.to_owned()).collect()
}

/// `cookie::Cookie::parse`: the name and value of the cookie, or `None` when the piece is
/// not a cookie.
#[verifier::external_body]
fn parse_cookie(piece: &str) -> (r: Option<(String, String)>)
    ensures
        match r {
            Some((name, value)) => spec_parse_cookie(piece@) == Some((name@, value@)),
            None => spec_parse_cookie(piece@) is None,
        },
{
    match cookie::Cookie::parse(piece) {
        Ok(c) => Some((c.name().to_owned(), c.value().to_owned())),
        Err(_) => None,
    }
}

/// `cookie::PrivateJar::decrypt` under `cookie::Key::from(key)`: the decrypted value of
/// the cookie `name=value`, or `None` when it does not authenticate. `Key::from` panics on
/// keys shorter than 64 bytes.
#[verifier::external_body]
fn decrypt_private_cookie(key: &str, name: &str, value: &str) -> (r: Option<String>)
    requires
        key.spec_bytes().len() >= 64,
    ensures
        match r {
            Some(v) => spec_private_cookie_value(key@, name@, value@) == Some(v@),
            None => spec_private_cookie_value(key@, name@, value@) is None,
        },
{
    let key = cookie::Key::from(key.as_bytes());
    let jar = cookie::CookieJar::new();
    let cookie = cookie::Cookie::new(name.to_owned(), value.to_owned());
    jar.private(&key).decrypt(cookie).map(|c| c.value().to_owned())
}

/// The name and value of a parsed cookie, by their views.
pub open spec fn cookie_view(c: Option<(String, String)>) -> Option<(Seq<char>, Seq<char>)> {
    match c {
        Some((name, value)) => Some((name@, value@)),
        None => None,
    }
}

/// The first cookie named `session` among parsed cookie pieces (`None` stands for a piece
/// that did not parse).
pub open spec fn spec_first_session_cookie(parsed: Seq<Option<(Seq<char>, Seq<char>)>>) -> Option<
    (Seq<char>, Seq<char>),
>
    decreases parsed.len(),
{
    if parsed.len() == 0 {
        None
    } else {
        match parsed[0] {
            Some((name, value)) => if name == "session"@ {
                Some((name, value))
            } else {
                spec_first_session_cookie(parsed.drop_first())
            },
            None => spec_first_session_cookie(parsed.drop_first()),
        }
    }
}

/// The session in a list of cookie header pieces: the first piece that parses as a cookie
/// named `session` decides, by whether it decrypts.
pub open spec fn spec_session_from_pieces(pieces: Seq<Seq<char>>, key: Seq<char>) -> Option<
    Seq<char>,
> {
    match spec_first_session_cookie(pieces.map_values(|p: Seq<char>| spec_parse_cookie(p))) {
        Some((name, value)) => spec_private_cookie_value(key, name, value),
        None => None,
    }
}

/// The first cookie named `session` among parsed cookie pieces.
pub fn first_session_cookie(parsed: &Vec<Option<(String, String)>>) -> (r: Option<(String, String)>)
    ensures
        cookie_view(r) == spec_first_session_cookie(parsed@.map_values(|c| cookie_view(c))),
{
    let ghost views = parsed@.map_values(|c| cookie_view(c));
    let mut i: usize = 0;
    assert(views.skip(0) =~= views);
    while i < parsed.len()
        invariant
            i <= parsed.len(),
            views == parsed@.map_values(|c| cookie_view(c)),
            spec_first_session_cookie(views) == spec_first_session_cookie(views.skip(i as int)),
        decreases parsed.len() - i,
    {
        assert(views.skip(i as int).drop_first() =~= views.skip(i + 1));
        assert(views.skip(i as int)[0] == cookie_view(parsed@[i as int]));
        if let Some((name, value)) = &parsed[i] {
            if str_eq(name.as_str(), "session") {
                return Some((name.clone(), value.clone()));
            }
        }
        i = i + 1;
    }
    assert(views.skip(i as int) =~= Seq::<Option<(Seq<char>, Seq<char>)>>::empty());
    None
}

/// The session id carried by a `Cookie` header value (cookies separated by "; "), if any.
pub fn session_from_cookie_header(header: &str) -> (r: Option<String>)
    ensures
        option_string_view(r) == spec_session_from_pieces(
            spec_split(header@, "; "@),
            get_secret_key_spec(),
        ),
{
    let key = get_secret_key();
    proof {
        reveal_strlit("; ");
    }
    let pieces = split(header, "; ");
    let ghost piece_views = pieces@.map_values(|p: String| p@);
    let ghost wanted = piece_views.map_values(|p: Seq<char>| spec_parse_cookie(p));
    let mut parsed: Vec<Option<(String, String)>> = Vec::new();
    let mut i: usize = 0;
    while i < pieces.len()
        invariant
            i <= pieces.len(),
            piece_views == pieces@.map_values(|p: String| p@),
            wanted == piece_views.map_values(|p: Seq<char>| spec_parse_cookie(p)),
            parsed.len() == i,
            wanted.len() == pieces.len(),
            forall|j: int| 0 <= j < i ==> cookie_view(#[trigger] parsed@[j]) == wanted[j],
        decreases pieces.len() - i,
    {
        let c = parse_cookie(pieces[i].as_str());
        assert(cookie_view(c) == wanted[i as int]) by {
            assert(piece_views[i as int] == pieces@[i as int]@);
        }
        parsed.push(c);
        i = i + 1;
    }
    assert(parsed@.map_values(|c| cookie_view(c)) =~= wanted);
    match first_session_cookie(&parsed) {
        Some((name, value)) => decrypt_private_cookie(key, name.as_str(), value.as_str()),
        None => None,
    }
}

pub open spec fn option_string_view(s: Option<String>) -> Option<Seq<char>> {
    match s {
        Some(s) => Some(s@),
        None => None,
    }
}

} // verus!
