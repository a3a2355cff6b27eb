//! The moment of an export as a text, and the number of a favorites folder
//! out of the folder's link.

use vstd::prelude::*;
use crate::errors::{FavlistError, FavlistErrorView, join2};
use crate::text::{
    all_ascii_digits, char_is_ascii_digit, chars_of, decimal_value, digit_value, is_ascii_digit,
    parse_digits, str_eq,
};

verus! {

/// Whether the two characters of `s` from `at` on are digits that write a
/// number from `low` to `high`.
pub open spec fn two_digits_within(s: Seq<char>, at: int, low: int, high: int) -> bool {
    &&& 0 <= at
    &&& at + 1 < s.len()
    &&& is_ascii_digit(s[at])
    &&& is_ascii_digit(s[at + 1])
    &&& low <= 10 * digit_value(s[at]) + digit_value(s[at + 1]) <= high
}

/// Whether `year` writes a year: four digits for the years 0 to 9999, a
/// sign and four digits or more for any other.
pub open spec fn is_year_text(year: Seq<char>) -> bool {
    ||| year.len() == 4 && all_ascii_digits(year)
    ||| year.len() >= 5 && (year[0] == '+' || year[0] == '-') && all_ascii_digits(year.skip(1))
}

/// Whether `s` writes a moment as the ledger names it: the year, the month
/// (01 to 12), the day (01 to 31), `T`, the hour (00 to 23), the minute
/// (00 to 59) and the second (00 to 60), each of two digits but the year,
/// with a hyphen before each but the year and the hour.
pub open spec fn is_timestamp(s: Seq<char>) -> bool {
    let n = s.len() as int;
    &&& n >= 19
    &&& is_year_text(s.take(n - 15))
    &&& s[n - 15] == '-'
    &&& two_digits_within(s, n - 14, 1, 12)
    &&& s[n - 12] == '-'
    &&& two_digits_within(s, n - 11, 1, 31)
    &&& s[n - 9] == 'T'
    &&& two_digits_within(s, n - 8, 0, 23)
    &&& s[n - 6] == '-'
    &&& two_digits_within(s, n - 5, 0, 59)
    &&& s[n - 3] == '-'
    &&& two_digits_within(s, n - 2, 0, 60)
}

/// `Local::now` and `DateTime::format` of `chrono`: the local time of this
/// moment, written in the given format. Which moment it is cannot be said;
/// its shape can: `chrono` writes `%Y` as four digits, with a sign before
/// them where the year is not from 0 to 9999, and each of `%m`, `%d`, `%H`,
/// `%M` and `%S` as two digits within its range.
#[verifier::external_body]
fn local_time_text(format: &str) -> (r: String)
    requires
        format@ == "%Y-%m-%dT%H-%M-%S"@,
    ensures
        is_timestamp(r@),
{
    chrono::Local::now().format(format).to_string()
}

/// This moment, in local time, as year, month, day, `T`, hour, minute and
/// second, with hyphens between them.
pub fn current_timestamp() -> (now: String)
    ensures
        is_timestamp(now@),
{
    local_time_text("%Y-%m-%dT%H-%M-%S")
}

/// What `Url::parse` of the `url` crate makes of a text: the query of the
/// link, `None` where it has no query; or the text of the parser's error.
pub uninterp spec fn url_query(input: Seq<char>) -> Result<Option<Seq<char>>, Seq<char>>;

/// The pairs of name and value that `form_urlencoded::parse` finds in a
/// query, percent-decoded, in their order.
pub uninterp spec fn form_pairs(query: Seq<char>) -> Seq<(Seq<char>, Seq<char>)>;

/// The texts of a list of pairs.
pub open spec fn pair_texts(pairs: Seq<(String, String)>) -> Seq<(Seq<char>, Seq<char>)> {
    pairs.map_values(|p: (String, String)| (p.0@, p.1@))
}

/// `Url::parse` and `Url::query` of the `url` crate: the query part of the
/// link that `input` writes, or the text of the error that `input` gives.
#[verifier::external_body]
fn parse_url_query(input: &str) -> (r: Result<Option<String>, String>)
    ensures
        match r {
            Ok(Some(query)) => url_query(input@) == Ok::<Option<Seq<char>>, Seq<char>>(
                Some(query@),
            ),
            Ok(None) => url_query(input@) == Ok::<Option<Seq<char>>, Seq<char>>(None),
            Err(message) => url_query(input@) == Err::<Option<Seq<char>>, Seq<char>>(message@),
        },
{
    match url::Url::parse(input) {
        Ok(url) => Ok(url.query().map(|query| query.to_string())),
        Err(error) => Err(error.to_string()),
    }
}

/// `form_urlencoded::parse` of the `url` crate: the pairs of name and value
/// of a query.
#[verifier::external_body]
fn parse_form_pairs(query: &str) -> (r: Vec<(String, String)>)
    ensures
        pair_texts(r@) == form_pairs(query@),
{
    url::form_urlencoded::parse(query.as_bytes()).map(
        |(name, value)| (name.into_owned(), value.into_owned()),
    ).collect()
}

/// Whether a parameter of this name holds the number of a folder.
pub open spec fn is_id_key(key: Seq<char>) -> bool {
    key == "media_id"@ || key == "fid"@
}

/// What is said where no parameter holds the number of a folder.
pub open spec fn id_not_found() -> Seq<char> {
    "未在链接查询参数中找到fid或media_id"@
}

/// The number that the parameter `key` holds in `value`: the value read
/// in base ten, where it is made of digits alone and fits; else what is
/// said of it.
pub open spec fn id_value(key: Seq<char>, value: Seq<char>) -> Result<i64, Seq<char>> {
    if !all_ascii_digits(value) {
        Err(key + "包含非法字符: "@ + value)
    } else if value.len() == 0 || decimal_value(value) > i64::MAX {
        Err(key + "数值无效: "@ + value)
    } else {
        Ok(decimal_value(value) as i64)
    }
}

/// The number of the folder that the parameters name: the first parameter
/// called `media_id` or `fid` decides.
pub open spec fn media_id_in(pairs: Seq<(Seq<char>, Seq<char>)>) -> Result<i64, Seq<char>>
    decreases pairs.len(),
{
    if pairs.len() == 0 {
        Err(id_not_found())
    } else if is_id_key(pairs[0].0) {
        id_value(pairs[0].0, pairs[0].1)
    } else {
        media_id_in(pairs.drop_first())
    }
}

/// The number of the folder that a link names, or what is said of the link.
pub open spec fn media_id_of(link: Seq<char>) -> Result<i64, Seq<char>> {
    match url_query(link) {
        Err(message) => Err("URL解析失败: "@ + message),
        Ok(None) => Err(id_not_found()),
        Ok(Some(query)) => media_id_in(form_pairs(query)),
    }
}

/// The number that the parameter `key` holds in `value`.
fn id_from_value(key: &str, value: &str) -> (r: Result<i64, FavlistError>)
    ensures
        match r {
            Ok(id) => id_value(key@, value@) == Ok::<i64, Seq<char>>(id),
            Err(e) => id_value(key@, value@) matches Err(m) && e@ == FavlistErrorView::InvalidUrl(
                m,
            ),
        },
{
    let chars = chars_of(value);
    let to = chars.len();
    proof {
        assert(chars@.subrange(0, to as int) =~= value@);
    }
    let mut i: usize = 0;
    while i < to
        invariant
            i <= to == chars.len(),
            chars@ == value@,
            forall|k: int| 0 <= k < i ==> is_ascii_digit(#[trigger] chars@[k]),
        decreases to - i,
    {
        if !char_is_ascii_digit(chars[i]) {
            proof {
                assert(!all_ascii_digits(value@));
            }
            let mut message = join2(key, "包含非法字符: ");
            message.append(value);
            return Err(FavlistError::InvalidUrl(message));
        }
        i += 1;
    }
    let parsed = if to == 0 {
        None
    } else {
        parse_digits(&chars, 0, to, 0x7FFF_FFFF_FFFF_FFFF)
    };
    match parsed {
        Some(number) => Ok(number as i64),
        None => {
            let mut message = join2(key, "数值无效: ");
            message.append(value);
            Err(FavlistError::InvalidUrl(message))
        },
    }
}

/// The number of the folder that the parameters of a link name. The first
/// parameter called `media_id` or `fid` decides: its value must be made of
/// digits alone and fit in 64 bits.
pub fn media_id_from_pairs(pairs: &Vec<(String, String)>) -> (r: Result<i64, FavlistError>)
    ensures
        match r {
            Ok(id) => media_id_in(pair_texts(pairs@)) == Ok::<i64, Seq<char>>(id),
            Err(e) => media_id_in(pair_texts(pairs@)) matches Err(m) && e@
                == FavlistErrorView::InvalidUrl(m),
        },
{
    let ghost all = pair_texts(pairs@);
    let mut i: usize = 0;
    proof {
        assert(all.skip(0) =~= all);
    }
    while i < pairs.len()
        invariant
            i <= pairs.len(),
            all == pair_texts(pairs@),
            media_id_in(all) == media_id_in(all.skip(i as int)),
        decreases pairs.len() - i,
    {
        let key = pairs[i].0.as_str();
        proof {
            assert(all.skip(i as int)[0] == all[i as int]);
            assert(all.skip(i as int).drop_first() =~= all.skip(i + 1));
        }
        if str_eq(key, "media_id") || str_eq(key, "fid") {
            return id_from_value(key, pairs[i].1.as_str());
        }
        i += 1;
    }
    Err(FavlistError::InvalidUrl("未在链接查询参数中找到fid或media_id".to_owned()))
}

/// The number of the folder that a link names in its parameter `media_id`
/// or `fid`.
pub fn parse_media_id(fav_url: &str) -> (r: Result<i64, FavlistError>)
    ensures
        match r {
            Ok(id) => media_id_of(fav_url@) == Ok::<i64, Seq<char>>(id),
            Err(e) => media_id_of(fav_url@) matches Err(m) && e@ == FavlistErrorView::InvalidUrl(
                m,
            ),
        },
{
    match parse_url_query(fav_url) {
        Err(message) => Err(FavlistError::InvalidUrl(join2("URL解析失败: ", message.as_str()))),
        Ok(None) => Err(
            FavlistError::InvalidUrl("未在链接查询参数中找到fid或media_id".to_owned()),
        ),
        Ok(Some(query)) => {
            let pairs = parse_form_pairs(query.as_str());
            media_id_from_pairs(&pairs)
        },
    }
}

/// Where the first parameter called `media_id` or `fid` holds digits that
/// write a number of at most 64 bits, that number is the folder's.
pub proof fn lemma_media_id_of_digits(pairs: Seq<(Seq<char>, Seq<char>)>, at: int)
    requires
        0 <= at < pairs.len(),
        is_id_key(pairs[at].0),
        forall|k: int| 0 <= k < at ==> !is_id_key(#[trigger] pairs[k].0),
        pairs[at].1.len() > 0,
        all_ascii_digits(pairs[at].1),
        decimal_value(pairs[at].1) <= i64::MAX,
    ensures
        media_id_in(pairs) == Ok::<i64, Seq<char>>(decimal_value(pairs[at].1) as i64),
    decreases at,
{
    if at > 0 {
        let rest = pairs.drop_first();
        assert(!is_id_key(pairs[0].0));
        assert(rest[at - 1] == pairs[at]);
        assert forall|k: int| 0 <= k < at - 1 implies !is_id_key(#[trigger] rest[k].0) by {
            assert(rest[k] == pairs[k + 1]);
        }
        lemma_media_id_of_digits(rest, at - 1);
    }
}

/// Without a parameter called `media_id` or `fid` no folder is named.
pub proof fn lemma_media_id_absent(pairs: Seq<(Seq<char>, Seq<char>)>)
    requires
        forall|k: int| 0 <= k < pairs.len() ==> !is_id_key(#[trigger] pairs[k].0),
    ensures
        media_id_in(pairs) == Err::<i64, Seq<char>>(id_not_found()),
    decreases pairs.len(),
{
    if pairs.len() > 0 {
        let rest = pairs.drop_first();
        assert(!is_id_key(pairs[0].0));
        assert forall|k: int| 0 <= k < rest.len() implies !is_id_key(#[trigger] rest[k].0) by {
            assert(rest[k] == pairs[k + 1]);
        }
        lemma_media_id_absent(rest);
    }
}

/// Where the first parameter called `media_id` or `fid` holds anything but
/// digits, no folder is named.
pub proof fn lemma_media_id_not_digits(pairs: Seq<(Seq<char>, Seq<char>)>, at: int)
    requires
        0 <= at < pairs.len(),
        is_id_key(pairs[at].0),
        forall|k: int| 0 <= k < at ==> !is_id_key(#[trigger] pairs[k].0),
        !all_ascii_digits(pairs[at].1),
    ensures
        media_id_in(pairs) is Err,
    decreases at,
{
    if at > 0 {
        let rest = pairs.drop_first();
        assert(!is_id_key(pairs[0].0));
        assert(rest[at - 1] == pairs[at]);
        assert forall|k: int| 0 <= k < at - 1 implies !is_id_key(#[trigger] rest[k].0) by {
            assert(rest[k] == pairs[k + 1]);
        }
        lemma_media_id_not_digits(rest, at - 1);
    }
}

} // verus!
