//! What the tool needs to talk to a Pocketbase server: where it is, how to
//! log in, and how to read the tokens it answers with.
use vstd::prelude::*;

use crate::clients::json::{json_debug, json_debug_text, json_error_text, json_has_member, json_member, json_member_as_str, json_member_str, json_parses, parse_json};
use crate::models::identity::{is_hyphenated_uuid, random_id};
use crate::models::labels::{entry_views, lookup, Labels};
use crate::text::has_prefix;

verus! {

/// The value of the other label `key` of `labels`, if there is one.
pub open spec fn other_label(labels: Labels, key: Seq<char>) -> Option<Seq<char>> {
    match labels.other {
        Some(o) => lookup(entry_views(o@), key),
        None => None,
    }
}

/// The address, user name and password of a container's Pocketbase server,
/// from its labels `bdf.pocketbase.url`, `bdf.pocketbase.username` and
/// `bdf.pocketbase.password`, or the error for the first one missing.
pub open spec fn credentials_of(labels: Labels) -> Result<(Seq<char>, Seq<char>, Seq<char>), Seq<char>> {
    if other_label(labels, "pocketbase.url"@) is None {
        Err("Pocketbase URL not found in container labels"@)
    } else if other_label(labels, "pocketbase.username"@) is None {
        Err("Pocketbase username not found in container labels"@)
    } else if other_label(labels, "pocketbase.password"@) is None {
        Err("Pocketbase password not found in container labels"@)
    } else {
        Ok(
            (
                other_label(labels, "pocketbase.url"@).unwrap(),
                other_label(labels, "pocketbase.username"@).unwrap(),
                other_label(labels, "pocketbase.password"@).unwrap(),
            ),
        )
    }
}

/// The address, user name and password of a container's Pocketbase server,
/// from its labels; the first one missing gives its error.
pub fn pocketbase_credentials(labels: &Labels) -> (r: Result<(String, String, String), String>)
    ensures
        match r {
            Ok((url, user, password)) => credentials_of(*labels) == Ok::<
                (Seq<char>, Seq<char>, Seq<char>),
                Seq<char>,
            >((url@, user@, password@)),
            Err(e) => credentials_of(*labels) == Err::<(Seq<char>, Seq<char>, Seq<char>), Seq<char>>(
                e@,
            ),
        },
{
    let url = match labels.other_value("pocketbase.url") {
        Some(v) => v.clone(),
        None => return Err(String::from_str("Pocketbase URL not found in container labels")),
    };
    let user = match labels.other_value("pocketbase.username") {
        Some(v) => v.clone(),
        None => return Err(String::from_str("Pocketbase username not found in container labels")),
    };
    let password = match labels.other_value("pocketbase.password") {
        Some(v) => v.clone(),
        None => return Err(String::from_str("Pocketbase password not found in container labels")),
    };
    Ok((url, user, password))
}

/// The value of the `authorization` header that carries `token`.
pub fn authorization_value(token: &str) -> (r: String)
    ensures
        r@ == "Bearer "@ + token@,
{
    let mut r = String::from_str("Bearer ");
    r.append(token);
    r
}

/// The name of a new Pocketbase backup archive: `bdf-backup-`, a random
/// version 4 identifier in hyphenated form, and `.zip`.
pub fn pocketbase_backup_name() -> (r: String)
    ensures
        has_prefix(r@, "bdf-backup-"@),
        r@.len() == "bdf-backup-"@.len() + 36 + ".zip"@.len(),
        r@.subrange(r@.len() - ".zip"@.len(), r@.len() as int) == ".zip"@,
        is_hyphenated_uuid(
            r@.subrange("bdf-backup-"@.len() as int, r@.len() - ".zip"@.len()),
            '4',
        ),
{
    let id = random_id();
    let mut r = String::from_str("bdf-backup-");
    r.append(id.as_str());
    r.append(".zip");
    let ghost a = "bdf-backup-"@;
    let ghost z = ".zip"@;
    assert(r@ == a + id@ + z);
    assert(r@.subrange(0, a.len() as int) =~= a);
    assert(r@.subrange(r@.len() - z.len(), r@.len() as int) =~= z);
    assert(r@.subrange(a.len() as int, r@.len() - z.len()) =~= id@);
    r
}

/// The token that a Pocketbase answer carries in its `token` member: its
/// text when it is a JSON string, else empty. Fails when the answer is not
/// JSON, or has no `token` member.
pub fn token_from_response(body: &str) -> (r: Result<String, String>)
    ensures
        r is Ok <==> json_parses(body@) && json_has_member(body@, "token"@),
        r matches Ok(t) ==> t@ == match json_member_str(body@, "token"@) {
            Some(s) => s,
            None => Seq::<char>::empty(),
        },
        r matches Err(e) ==> if !json_parses(body@) {
            e@ == "Failed to parse response: "@ + json_error_text(body@)
        } else {
            e@ == "Token not found in response: "@ + json_debug_text(body@)
        },
{
    let doc = match parse_json(body) {
        Ok(d) => d,
        Err(e) => {
            let mut msg = String::from_str("Failed to parse response: ");
            msg.append(e.as_str());
            return Err(msg);
        },
    };
    match json_member(&doc, "token") {
        Some(m) => match json_member_as_str(&m) {
            Some(s) => Ok(s),
            None => Ok(String::new()),
        },
        None => {
            let mut msg = String::from_str("Token not found in response: ");
            let shown = json_debug(&doc);
            msg.append(shown.as_str());
            Err(msg)
        },
    }
}

} // verus!
