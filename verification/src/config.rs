//! The application's configuration and the pictures of its platform.
use vstd::prelude::*;
use crate::json::{
    Members, json_string_object, lookup, parse_string_object, find_member, rows_of_len, rows_view, texts_view,
};
use crate::report::{ReplyError, listed_rows, read_member_rows};
use crate::text::{strip_quotes, unquoted};

verus! {

/// Why the configuration file could not be used.
#[derive(Debug, PartialEq, Eq, Structural, Clone, Copy)]
pub enum ConfigError {
    /// The file is not a JSON object of strings.
    Malformed,
    /// The file has no `platform` entry.
    MissingPlatform,
    /// The file has no `url` entry.
    MissingUrl,
}

/// The platform code and the server address that a configuration text
/// gives, or why it gives none.
pub open spec fn app_config(text: Seq<char>) -> Result<(Seq<char>, Seq<char>), ConfigError> {
    match json_string_object(text) {
        None => Err(ConfigError::Malformed),
        Some(m) => match lookup(m, "platform"@) {
            None => Err(ConfigError::MissingPlatform),
            Some(platform) => match lookup(m, "url"@) {
                None => Err(ConfigError::MissingUrl),
                Some(url) => Ok((platform, url)),
            },
        },
    }
}

/// Reads the platform code and the server address from the text of the
/// configuration file, which must be a JSON object of strings with both
/// entries.
pub fn parse_app_config(text: &str) -> (r: (String, String))
    requires
        app_config(text@) is Ok,
    ensures
        r.0@ == app_config(text@)->Ok_0.0,
        r.1@ == app_config(text@)->Ok_0.1,
{
    let m = match parse_string_object(text) {
        Some(m) => m,
        None => {
            assert(false);
            Vec::new()
        },
    };
    let platform = match find_member(&m, "platform") {
        Some(p) => p,
        None => {
            assert(false);
            String::new()
        },
    };
    let url = match find_member(&m, "url") {
        Some(u) => u,
        None => {
            assert(false);
            String::new()
        },
    };
    (platform, url)
}

/// Reads the platform code and the server address from the text of the
/// configuration file, or says why it holds none.
pub fn try_parse_app_config(text: &str) -> (r: Result<(String, String), ConfigError>)
    ensures
        match app_config(text@) {
            Err(e) => r == Err::<(String, String), ConfigError>(e),
            Ok(pair) => r is Ok && r->Ok_0.0@ == pair.0 && r->Ok_0.1@ == pair.1,
        },
{
    let m = match parse_string_object(text) {
        None => return Err(ConfigError::Malformed),
        Some(m) => m,
    };
    if find_member(&m, "platform").is_none() {
        return Err(ConfigError::MissingPlatform);
    }
    if find_member(&m, "url").is_none() {
        return Err(ConfigError::MissingUrl);
    }
    Ok(parse_app_config(text))
}

/// The fields read of each platform record: its `code`, then the member
/// that holds the address of each picture.
pub open spec fn record_fields() -> Seq<Seq<char>> {
    seq![
        "code"@,
        "loginLogoAttachmentUrl"@,
        "loginScreenAttachmentUrl"@,
        "homeLogoAttachmentUrl"@,
        "naviBackgroundAttachmentUrl"@,
        "naviTitleAttachmentUrl"@,
        "homeLeftAttachmentUrl"@,
        "tableHeadAttachmentUrl"@,
    ]
}

/// The name each picture is saved under, in the order of the fields.
pub open spec fn picture_names() -> Seq<Seq<char>> {
    seq![
        "login_logo"@,
        "login_screen"@,
        "home_logo"@,
        "background"@,
        "title"@,
        "home_left"@,
        "table"@,
    ]
}

/// The pictures of one platform record: for each picture field, the field's
/// text with its double quotes taken out, and the picture's name.
pub open spec fn record_downloads(row: Seq<Seq<char>>) -> Seq<(Seq<char>, Seq<char>)> {
    Seq::new(7, |j: int| (unquoted(row[j + 1]), picture_names()[j]))
}

/// The pictures of every record whose `code` (quotes taken out) is the
/// platform, in order.
pub open spec fn downloads_for(platform: Seq<char>, rows: Seq<Seq<Seq<char>>>) -> Seq<
    (Seq<char>, Seq<char>),
>
    decreases rows.len(),
{
    if rows.len() == 0 {
        Seq::empty()
    } else {
        let before = downloads_for(platform, rows.drop_last());
        let row = rows.last();
        if unquoted(row[0]) == platform {
            before + record_downloads(row)
        } else {
            before
        }
    }
}

/// The view of executable text pairs.
pub open spec fn pairs_view(v: Seq<(String, String)>) -> Seq<(Seq<char>, Seq<char>)> {
    v.map_values(|p: (String, String)| (p.0@, p.1@))
}

/// The record fields, as executable strings.
fn record_field_list() -> (r: Vec<String>)
    ensures
        texts_view(r@) == record_fields(),
{
    let mut r: Vec<String> = Vec::new();
    r.push(String::from_str("code"));
    r.push(String::from_str("loginLogoAttachmentUrl"));
    r.push(String::from_str("loginScreenAttachmentUrl"));
    r.push(String::from_str("homeLogoAttachmentUrl"));
    r.push(String::from_str("naviBackgroundAttachmentUrl"));
    r.push(String::from_str("naviTitleAttachmentUrl"));
    r.push(String::from_str("homeLeftAttachmentUrl"));
    r.push(String::from_str("tableHeadAttachmentUrl"));
    assert(texts_view(r@) =~= record_fields());
    r
}

/// The picture names, as executable strings.
fn picture_name_list() -> (r: Vec<String>)
    ensures
        texts_view(r@) == picture_names(),
{
    let mut r: Vec<String> = Vec::new();
    r.push(String::from_str("login_logo"));
    r.push(String::from_str("login_screen"));
    r.push(String::from_str("home_logo"));
    r.push(String::from_str("background"));
    r.push(String::from_str("title"));
    r.push(String::from_str("home_left"));
    r.push(String::from_str("table"));
    assert(texts_view(r@) =~= picture_names());
    r
}

/// The pictures to download for the platform, from the reply to the
/// platform query, which must be an object whose `data` member is an array:
/// `(address, name)` for each picture of each record whose `code` is the
/// platform.
pub fn picture_downloads(platform: &str, reply: &str) -> (r: Vec<(String, String)>)
    requires
        listed_rows(reply@, "data"@, record_fields()) is Ok,
    ensures
        pairs_view(r@) == downloads_for(platform@, listed_rows(reply@, "data"@, record_fields())->Ok_0),
{
    let fields = record_field_list();
    let rows = match read_member_rows(reply, "data", &fields) {
        Ok(rows) => rows,
        Err(_) => {
            assert(false);
            Vec::new()
        },
    };
    assert(texts_view(fields@).len() == 8);
    let ghost all = rows_view(rows@);
    let wanted: String = platform.to_owned();
    let names = picture_name_list();
    assert(texts_view(names@).len() == 7);
    let mut out: Vec<(String, String)> = Vec::new();
    let mut i: usize = 0;
    while i < rows.len()
        invariant
            i <= rows.len(),
            all == rows_view(rows@),
            rows_of_len(all, 8),
            wanted@ == platform@,
            texts_view(names@) == picture_names(),
            names.len() == 7,
            pairs_view(out@) == downloads_for(platform@, all.take(i as int)),
        decreases rows.len() - i,
    {
        let row = &rows[i];
        assert(all.take(i + 1).drop_last() == all.take(i as int));
        assert(all.take(i + 1).last() == all[i as int]);
        assert(all[i as int] == texts_view(row@));
        assert(all[i as int].len() == 8);
        let code = strip_quotes(row[0].as_str());
        if code == wanted {
            let ghost start = pairs_view(out@);
            let ghost want = record_downloads(all[i as int]);
            let mut j: usize = 0;
            while j < 7
                invariant
                    j <= 7,
                    row@.len() == 8,
                    all[i as int] == texts_view(row@),
                    want == record_downloads(all[i as int]),
                    texts_view(names@) == picture_names(),
                    names.len() == 7,
                    pairs_view(out@) == start + want.take(j as int),
                decreases 7 - j,
            {
                assert(texts_view(row@)[j + 1] == row@[j + 1]@);
                assert(texts_view(names@)[j as int] == names@[j as int]@);
                let url = strip_quotes(row[j + 1].as_str());
                let name = names[j].clone();
                let ghost before = out@;
                out.push((url, name));
                assert(pairs_view(out@) == pairs_view(before).push((url@, name@)));
                assert(want.take(j + 1) == want.take(j as int).push(want[j as int]));
                j = j + 1;
            }
            assert(want.take(7) == want);
        }
        i = i + 1;
    }
    assert(all.take(rows.len() as int) == all);
    out
}

/// The pictures to download for the platform, or why the reply does not
/// hold the platform records.
pub fn try_picture_downloads(platform: &str, reply: &str) -> (r: Result<Vec<(String, String)>, ReplyError>)
    ensures
        match listed_rows(reply@, "data"@, record_fields()) {
            Err(e) => r == Err::<Vec<(String, String)>, ReplyError>(e),
            Ok(rows) => r is Ok && pairs_view(r->Ok_0@) == downloads_for(platform@, rows),
        },
{
    let fields = record_field_list();
    match read_member_rows(reply, "data", &fields) {
        Err(e) => Err(e),
        Ok(_) => Ok(picture_downloads(platform, reply)),
    }
}

/// The file a downloaded picture is saved to: `src/ui/pic/<name>.png`.
pub fn picture_path(name: &str) -> (r: String)
    ensures
        r@ == "src/ui/pic/"@ + name@ + ".png"@,
{
    let mut r = String::from_str("src/ui/pic/");
    r.append(name);
    r.append(".png");
    r
}

/// The address of the platform query on the server at `base`.
pub fn caches_url(base: &str) -> (r: String)
    ensures
        r@ == base@ + "/api/platform/caches"@,
{
    let mut r = String::from_str(base);
    r.append("/api/platform/caches");
    r
}

/// Each record of the platform gives its seven pictures, so the list holds
/// seven entries per such record; other records give none.
pub proof fn law_seven_pictures_per_record(platform: Seq<char>, rows: Seq<Seq<Seq<char>>>)
    ensures
        downloads_for(platform, rows).len() == 7 * rows.filter(
            |row: Seq<Seq<char>>| unquoted(row[0]) == platform,
        ).len(),
    decreases rows.len(),
{
    reveal(Seq::filter);
    if rows.len() > 0 {
        law_seven_pictures_per_record(platform, rows.drop_last());
    }
}


/// Each picture is taken from the field named for it and saved under its
/// own name, in the order of the table: `loginLogoAttachmentUrl` gives
/// `login_logo`, `loginScreenAttachmentUrl` gives `login_screen`,
/// `homeLogoAttachmentUrl` gives `home_logo`, `naviBackgroundAttachmentUrl`
/// gives `background`, `naviTitleAttachmentUrl` gives `title`,
/// `homeLeftAttachmentUrl` gives `home_left`, `tableHeadAttachmentUrl` gives
/// `table`; no address holds a double quote.
pub proof fn law_pictures_follow_their_fields(row: Seq<Seq<char>>)
    ensures
        record_downloads(row).len() == 7,
        record_fields()[0] == "code"@,
        record_fields()[1] == "loginLogoAttachmentUrl"@ && record_downloads(row)[0] == (
        unquoted(row[1]), "login_logo"@),
        record_fields()[2] == "loginScreenAttachmentUrl"@ && record_downloads(row)[1] == (
        unquoted(row[2]), "login_screen"@),
        record_fields()[3] == "homeLogoAttachmentUrl"@ && record_downloads(row)[2] == (
        unquoted(row[3]), "home_logo"@),
        record_fields()[4] == "naviBackgroundAttachmentUrl"@ && record_downloads(row)[3] == (
        unquoted(row[4]), "background"@),
        record_fields()[5] == "naviTitleAttachmentUrl"@ && record_downloads(row)[4] == (
        unquoted(row[5]), "title"@),
        record_fields()[6] == "homeLeftAttachmentUrl"@ && record_downloads(row)[5] == (
        unquoted(row[6]), "home_left"@),
        record_fields()[7] == "tableHeadAttachmentUrl"@ && record_downloads(row)[6] == (
        unquoted(row[7]), "table"@),
        forall|j: int| 0 <= j < 7 ==> !(#[trigger] record_downloads(row)[j]).0.contains('"'),
{
    assert forall|j: int| 0 <= j < 7 implies !(#[trigger] record_downloads(row)[j]).0.contains('"') by {
        crate::text::law_unquoted_has_no_quotes(row[j + 1]);
    }
}


/// A lookup finds a member with the key and the first such one's value, or
/// finds none when no member has the key.
pub proof fn law_lookup_finds_first(members: Members, key: Seq<char>)
    ensures
        lookup(members, key) matches Some(v) ==> exists|i: int|
            0 <= i < members.len() && #[trigger] members[i] == (key, v) && forall|j: int|
                0 <= j < i ==> (#[trigger] members[j]).0 != key,
        lookup(members, key) is None ==> forall|i: int| 0 <= i < members.len() ==> (#[trigger] members[i]).0 != key,
    decreases members.len(),
{
    if members.len() > 0 && members[0].0 != key {
        let t = members.drop_first();
        law_lookup_finds_first(t, key);
        if lookup(members, key) is Some {
            let i: int = choose|i: int|
                0 <= i < t.len() && #[trigger] t[i] == (key, lookup(members, key)->0) && forall|j: int|
                    0 <= j < i ==> (#[trigger] t[j]).0 != key;
            assert(members[i + 1] == t[i]);
            assert forall|j: int| 0 <= j < i + 1 implies (#[trigger] members[j]).0 != key by {
                if j > 0 {
                    assert(members[j] == t[j - 1]);
                }
            }
        } else {
            assert forall|i: int| 0 <= i < members.len() implies (#[trigger] members[i]).0 != key by {
                if i > 0 {
                    assert(members[i] == t[i - 1]);
                }
            }
        }
    }
}


/// Records are taken in the order of the reply: a record added at the end
/// adds its pictures at the end when its code is the platform, and nothing
/// otherwise.
pub proof fn law_downloads_in_record_order(platform: Seq<char>, rows: Seq<Seq<Seq<char>>>, row: Seq<Seq<char>>)
    ensures
        unquoted(row[0]) == platform ==> downloads_for(platform, rows.push(row)) == downloads_for(
            platform,
            rows,
        ) + record_downloads(row),
        unquoted(row[0]) != platform ==> downloads_for(platform, rows.push(row)) == downloads_for(
            platform,
            rows,
        ),
{
    assert(rows.push(row).drop_last() == rows);
}

/// The configuration gives the `platform` and `url` entries of a JSON
/// object of strings; it is malformed when the text is no such object, and
/// otherwise names the first missing entry, `platform` before `url`.
pub proof fn law_app_config(text: Seq<char>)
    ensures
        json_string_object(text) is None ==> app_config(text) == Err::<
            (Seq<char>, Seq<char>),
            ConfigError,
        >(ConfigError::Malformed),
        json_string_object(text) matches Some(m) ==> {
            &&& lookup(m, "platform"@) is None ==> app_config(text) == Err::<
                (Seq<char>, Seq<char>),
                ConfigError,
            >(ConfigError::MissingPlatform)
            &&& (lookup(m, "platform"@) is Some && lookup(m, "url"@) is None) ==> app_config(text)
                == Err::<(Seq<char>, Seq<char>), ConfigError>(ConfigError::MissingUrl)
            &&& (lookup(m, "platform"@) is Some && lookup(m, "url"@) is Some) ==> app_config(text)
                == Ok::<(Seq<char>, Seq<char>), ConfigError>(
                (lookup(m, "platform"@)->0, lookup(m, "url"@)->0),
            )
        },
{
}

} // verus!
