use vstd::prelude::*;

use censor::Censor;
use unicode_normalization::UnicodeNormalization;
use unicode_segmentation::UnicodeSegmentation;

use crate::server_helpers::ServerHelpers;

verus! {

pub const MIN_NAME_LENGTH: usize = 2;

pub const MAX_NAME_LENGTH: usize = 16;

/// The Unicode Normalization Form C of a string.
pub uninterp spec fn spec_nfc(s: Seq<char>) -> Seq<char>;

/// The number of extended grapheme clusters in a string.
pub uninterp spec fn spec_grapheme_count(s: Seq<char>) -> usize;

/// Whether a character is alphabetic or numeric in the sense of Unicode.
pub uninterp spec fn spec_is_alphanumeric(c: char) -> bool;

/// Whether the `censor` crate finds a word of its standard and sex lists in `text`.
pub uninterp spec fn spec_standard_censor_check(text: Seq<char>) -> bool;

/// Whether the `censor` crate finds one of `words` in `text`.
pub uninterp spec fn spec_custom_censor_check(words: Seq<Seq<char>>, text: Seq<char>) -> bool;

/// `unicode_normalization::UnicodeNormalization::nfc`, collected into a string. The result
/// is named, not stated: normalization is a function of the input alone.
#[verifier::external_body]
fn nfc(s: &str) -> (r: String)
    ensures
        r@ == spec_nfc(s@),
{
    s.nfc().collect::<String>()
}

/// `unicode_segmentation::UnicodeSegmentation::graphemes` with extended clusters, counted.
#[verifier::external_body]
fn grapheme_count(s: &str) -> (r: usize)
    ensures
        r == spec_grapheme_count(s@),
{
    s.graphemes(true).count()
}

/// `char::is_alphanumeric`.
#[verifier::external_body]
fn is_alphanumeric(c: char) -> (r: bool)
    ensures
        r == spec_is_alphanumeric(c),
{
    c.is_alphanumeric()
}

/// `censor::Censor::check` on `Censor::Standard + Censor::Sex`. The result is named: it is
/// a function of the text, computed by the crate's word lists and matching rules (case
/// folding, look-alike characters, separators, repeated letters).
#[verifier::external_body]
fn standard_censor_check(text: &str) -> (r: bool)
    ensures
        r == spec_standard_censor_check(text@),
{
    (Censor::Standard + Censor::Sex).check(text)
}

/// `censor::Censor::check` on `Censor::custom(words)`. The result is named: it is a function
/// of the words and the text, computed by the crate's matching rules.
#[verifier::external_body]
fn custom_censor_check(words: &Vec<String>, text: &str) -> (r: bool)
    ensures
        r == spec_custom_censor_check(words@.map_values(|s: String| s@), text@),
{
    Censor::custom(words.clone()).check(text)
}

/// Words that may not appear in a player name.
pub open spec fn reserved_words() -> Seq<Seq<char>> {
    seq!["admin"@, "guest"@]
}

/// The verdict on a player name once normalized, from what the outside crates found in it:
/// `alphanumeric[i]` tells whether its `i`-th character is alphanumeric, `graphemes` is its
/// length in grapheme clusters, `profanity` and `reserved` whether it contains a censored
/// word or a reserved word. Checked in order: allowed characters only, length within
/// bounds, no profanity, no reserved word.
pub open spec fn spec_player_name_verdict(
    name: Seq<char>,
    alphanumeric: Seq<bool>,
    graphemes: nat,
    profanity: bool,
    reserved: bool,
) -> Result<(), Seq<char>> {
    if !(forall|i: int|
        0 <= i < name.len() ==> #[trigger] alphanumeric[i] || name[i] == '-' || name[i] == '_') {
        Err("Player name must consist of letters, digits, dashes ('-') and underscores ('_')."@)
    } else if graphemes < MIN_NAME_LENGTH {
        Err("Minimum name length is 2."@)
    } else if graphemes > MAX_NAME_LENGTH {
        Err("Maximum name length is 16."@)
    } else if profanity {
        Err("Player name must not contain profanity."@)
    } else if reserved {
        Err("Player name must not contain words \"admin\" or \"guest\"."@)
    } else {
        Ok(())
    }
}

/// Which characters of a string are alphanumeric.
pub open spec fn spec_alphanumeric_flags(name: Seq<char>) -> Seq<bool> {
    Seq::new(name.len(), |i: int| spec_is_alphanumeric(name[i]))
}

/// The verdict on a player name, checked after normalization to NFC.
pub open spec fn spec_validate_player_name(name: Seq<char>) -> Result<(), Seq<char>> {
    let name = spec_nfc(name);
    spec_player_name_verdict(
        name,
        spec_alphanumeric_flags(name),
        spec_grapheme_count(name) as nat,
        spec_standard_censor_check(name),
        spec_custom_censor_check(reserved_words(), name),
    )
}

fn error_message(message: &str) -> (r: Result<(), String>)
    ensures
        r matches Err(s) && s@ == message@,
{
    Err(String::from_str(message))
}

/// Decides on a normalized player name from what the outside crates found in it (see
/// `spec_player_name_verdict`).
pub fn player_name_verdict(
    name: &str,
    alphanumeric: &Vec<bool>,
    graphemes: usize,
    profanity: bool,
    reserved: bool,
) -> (r: Result<(), String>)
    requires
        alphanumeric.len() == name@.len(),
    ensures
        match r {
            Ok(()) => spec_player_name_verdict(
                name@,
                alphanumeric@,
                graphemes as nat,
                profanity,
                reserved,
            ) is Ok,
            Err(message) => spec_player_name_verdict(
                name@,
                alphanumeric@,
                graphemes as nat,
                profanity,
                reserved,
            ) == Err::<(), Seq<char>>(message@),
        },
{
    let n = name.unicode_len();
    let mut i: usize = 0;
    let mut all_allowed = true;
    while i < n
        invariant
            n == name@.len(),
            alphanumeric.len() == n,
            i <= n,
            all_allowed == forall|j: int|
                0 <= j < i ==> #[trigger] alphanumeric@[j] || name@[j] == '-' || name@[j] == '_',
        decreases n - i,
    {
        let c = name.get_char(i);
        let ok = alphanumeric[i] || c == '-' || c == '_';
        all_allowed = all_allowed && ok;
        i = i + 1;
    }
    if !all_allowed {
        return error_message(
            "Player name must consist of letters, digits, dashes ('-') and underscores ('_').",
        );
    }
    if graphemes < MIN_NAME_LENGTH {
        return error_message("Minimum name length is 2.");
    }
    if graphemes > MAX_NAME_LENGTH {
        return error_message("Maximum name length is 16.");
    }
    if profanity {
        return error_message("Player name must not contain profanity.");
    }
    if reserved {
        return error_message("Player name must not contain words \"admin\" or \"guest\".");
    }
    Ok(())
}

/// Checks a player name. Simple checks (character set, length) are also done by clients.
pub fn validate_player_name(name: &str) -> (r: Result<(), String>)
    ensures
        match r {
            Ok(()) => spec_validate_player_name(name@) is Ok,
            Err(message) => spec_validate_player_name(name@) == Err::<(), Seq<char>>(message@),
        },
        r is Ok ==> forall|i: int|
            0 <= i < spec_nfc(name@).len() ==> spec_is_alphanumeric(#[trigger] spec_nfc(name@)[i])
                || spec_nfc(name@)[i] == '-' || spec_nfc(name@)[i] == '_',
{
    proof {
        lemma_accepted_names_are_clean(name@);
    }
    let name = nfc(name);
    let name = name.as_str();
    let n = name.unicode_len();
    let mut alphanumeric: Vec<bool> = Vec::new();
    let mut i: usize = 0;
    while i < n
        invariant
            n == name@.len(),
            i <= n,
            alphanumeric@ == spec_alphanumeric_flags(name@).take(i as int),
        decreases n - i,
    {
        alphanumeric.push(is_alphanumeric(name.get_char(i)));
        assert(alphanumeric@ =~= spec_alphanumeric_flags(name@).take(i + 1));
        i = i + 1;
    }
    assert(alphanumeric@ =~= spec_alphanumeric_flags(name@));
    let graphemes = grapheme_count(name);
    let profanity = standard_censor_check(name);
    let mut reserved_list: Vec<String> = Vec::new();
    reserved_list.push(String::from_str("admin"));
    reserved_list.push(String::from_str("guest"));
    assert(reserved_list@.map_values(|s: String| s@) =~= reserved_words());
    let reserved = custom_censor_check(&reserved_list, name);
    player_name_verdict(name, &alphanumeric, graphemes, profanity, reserved)
}

/// A verdict accepts a name only if every character is a letter or digit (by the flags), a
/// dash or an underscore, its length is within bounds, and neither profanity nor a
/// reserved word was found; a name with any other character gets the character error,
/// whatever else is true of it.
pub proof fn lemma_verdict_accepts_only_clean_names(
    name: Seq<char>,
    alphanumeric: Seq<bool>,
    graphemes: nat,
    profanity: bool,
    reserved: bool,
)
    requires
        alphanumeric.len() == name.len(),
    ensures
        spec_player_name_verdict(name, alphanumeric, graphemes, profanity, reserved) is Ok ==> {
            &&& forall|i: int|
                0 <= i < name.len() ==> #[trigger] alphanumeric[i] || name[i] == '-' || name[i]
                    == '_'
            &&& 2 <= graphemes <= 16
            &&& !profanity
            &&& !reserved
        },
        (exists|i: int|
            0 <= i < name.len() && !#[trigger] alphanumeric[i] && name[i] != '-' && name[i]
                != '_') ==> spec_player_name_verdict(name, alphanumeric, graphemes, profanity, reserved)
            == Err::<(), Seq<char>>(
            "Player name must consist of letters, digits, dashes ('-') and underscores ('_')."@,
        ),
{
}

/// An accepted player name, once normalized, consists only of letters, digits, dashes and
/// underscores, is 2 to 16 grapheme clusters long, and contains no censored or reserved
/// word; a name whose normalized form holds any other character is refused for it.
pub proof fn lemma_accepted_names_are_clean(name: Seq<char>)
    ensures
        spec_validate_player_name(name) is Ok ==> {
            let n = spec_nfc(name);
            &&& forall|i: int|
                0 <= i < n.len() ==> spec_is_alphanumeric(#[trigger] n[i]) || n[i] == '-' || n[i]
                    == '_'
            &&& MIN_NAME_LENGTH <= spec_grapheme_count(n) <= MAX_NAME_LENGTH
            &&& !spec_standard_censor_check(n)
            &&& !spec_custom_censor_check(reserved_words(), n)
        },
        (exists|i: int|
            0 <= i < spec_nfc(name).len() && !spec_is_alphanumeric(#[trigger] spec_nfc(name)[i])
                && spec_nfc(name)[i] != '-' && spec_nfc(name)[i] != '_')
            ==> spec_validate_player_name(name) == Err::<(), Seq<char>>(
            "Player name must consist of letters, digits, dashes ('-') and underscores ('_')."@,
        ),
{
    let n = spec_nfc(name);
    let flags = spec_alphanumeric_flags(n);
    lemma_verdict_accepts_only_clean_names(
        n,
        flags,
        spec_grapheme_count(n) as nat,
        spec_standard_censor_check(n),
        spec_custom_censor_check(reserved_words(), n),
    );
    if spec_validate_player_name(name) is Ok {
        assert forall|i: int| 0 <= i < n.len() implies spec_is_alphanumeric(#[trigger] n[i])
            || n[i] == '-' || n[i] == '_' by {
            assert(flags[i] == spec_is_alphanumeric(n[i]));
        }
    }
    if exists|i: int|
        0 <= i < n.len() && !spec_is_alphanumeric(#[trigger] n[i]) && n[i] != '-' && n[i] != '_' {
        let i = choose|i: int|
            0 <= i < n.len() && !spec_is_alphanumeric(#[trigger] n[i]) && n[i] != '-' && n[i]
                != '_';
        assert(flags[i] == spec_is_alphanumeric(n[i]));
    }
}

/// The server helpers used in production.
pub struct ProdServerHelpers;

impl ServerHelpers for ProdServerHelpers {
    fn validate_player_name(&self, name: &str) -> (r: Result<(), String>)
        ensures
            match r {
                Ok(()) => spec_validate_player_name(name@) is Ok,
                Err(message) => spec_validate_player_name(name@) == Err::<(), Seq<char>>(
                    message@,
                ),
            },
    {
        validate_player_name(name)
    }
}

} // verus!
