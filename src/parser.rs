//! Extraction of fields from loosely formatted page text: the gateway's
//! script assignments, and the hidden inputs of an authentication form.
use vstd::prelude::*;

use crate::models::{Credentials, GatewayConfig};
use crate::text::{chars_of, matches_at, occurs_at, string_of};

verus! {

/// A field that a page should hold and does not.
#[derive(Debug, Clone, Copy, PartialEq, Eq, Structural)]
pub enum ExtractionError {
    ChallengeNotFound,
    UsernameNotFound,
    PasswordNotFound,
}

impl ExtractionError {
    /// A description of the missing field.
    pub fn message(&self) -> (r: &'static str)
        ensures
            *self == ExtractionError::ChallengeNotFound ==> r@ == "chap_challenge not found"@,
            *self == ExtractionError::UsernameNotFound ==> r@ == "username not found in form"@,
            *self == ExtractionError::PasswordNotFound ==> r@ == "password not found in form"@,
    {
        match self {
            ExtractionError::ChallengeNotFound => "chap_challenge not found",
            ExtractionError::UsernameNotFound => "username not found in form",
            ExtractionError::PasswordNotFound => "password not found in form",
        }
    }
}

/// A single or double quote.
pub open spec fn is_quote(c: char) -> bool {
    c == '"' || c == '\''
}

/// An ASCII whitespace character.
pub open spec fn is_space(c: char) -> bool {
    c == ' ' || c == '\t' || c == '\n' || c == '\r' || c == '\x0B' || c == '\x0C'
}

/// The first position in `from..to` where `pred` holds.
pub open spec fn first_index(from: int, to: int, pred: spec_fn(int) -> bool) -> Option<int>
    decreases to - from,
{
    if from >= to {
        None
    } else if pred(from) {
        Some(from)
    } else {
        first_index(from + 1, to, pred)
    }
}

/// The kinds of character a scan stops at.
#[derive(Debug, Clone, Copy, PartialEq, Eq, Structural)]
pub enum Stop {
    NonSpace,
    Quote,
    TagClose,
    LineEnd,
}

/// Whether a scan for `stop` stops at `c`.
pub open spec fn stops(stop: Stop, c: char) -> bool {
    match stop {
        Stop::NonSpace => !is_space(c),
        Stop::Quote => is_quote(c),
        Stop::TagClose => c == '>',
        Stop::LineEnd => c == '\n',
    }
}

/// The positions of `cs` where a scan for `stop` stops.
pub open spec fn stop_pred(cs: Seq<char>, stop: Stop) -> spec_fn(int) -> bool {
    |k: int| stops(stop, cs[k])
}

/// The first position from `from` on that a scan for `stop` stops at, or the
/// length of `cs`.
pub open spec fn scan_to(cs: Seq<char>, from: int, stop: Stop) -> int {
    match first_index(from, cs.len() as int, stop_pred(cs, stop)) {
        Some(k) => k,
        None => cs.len() as int,
    }
}

/// The value of an assignment whose key ends before `j`: an optional quote,
/// blanks, `:` or `=`, blanks, then a quoted, non-empty value.
pub open spec fn value_after_key(cs: Seq<char>, j: int) -> Option<Seq<char>> {
    let j1 = if j < cs.len() && is_quote(cs[j]) {
        j + 1
    } else {
        j
    };
    let j2 = scan_to(cs, j1, Stop::NonSpace);
    if j2 < cs.len() && (cs[j2] == ':' || cs[j2] == '=') {
        let j3 = scan_to(cs, j2 + 1, Stop::NonSpace);
        if j3 < cs.len() && is_quote(cs[j3]) {
            let k = scan_to(cs, j3 + 1, Stop::Quote);
            if j3 + 1 < k < cs.len() {
                Some(cs.subrange(j3 + 1, k))
            } else {
                None
            }
        } else {
            None
        }
    } else {
        None
    }
}

/// The positions of `cs` where an assignment of `key` starts.
pub open spec fn assignment_pred(cs: Seq<char>, key: Seq<char>) -> spec_fn(int) -> bool {
    |p: int| occurs_at(cs, p, key) && value_after_key(cs, p + key.len()) is Some
}

/// The value of the first assignment `key = "value"` or `key: "value"` in
/// `cs`, quotes single or double.
pub open spec fn assigned_value(cs: Seq<char>, key: Seq<char>) -> Option<Seq<char>> {
    match first_index(0, cs.len() as int, assignment_pred(cs, key)) {
        Some(p) => value_after_key(cs, p + key.len()),
        None => None,
    }
}

/// The assigned value of `key`, or the empty text.
pub open spec fn assigned_or_empty(cs: Seq<char>, key: Seq<char>) -> Seq<char> {
    match assigned_value(cs, key) {
        Some(v) => v,
        None => Seq::empty(),
    }
}

/// Scans `cs` from `from` for the first character that `stop` stops at.
pub fn scan(cs: &Vec<char>, from: usize, stop: Stop) -> (r: usize)
    requires
        from <= cs@.len(),
    ensures
        r as int == scan_to(cs@, from as int, stop),
        from <= r <= cs@.len(),
{
    let mut k: usize = from;
    while k < cs.len()
        invariant
            from <= k <= cs@.len(),
            first_index(from as int, cs@.len() as int, stop_pred(cs@, stop)) == first_index(
                k as int,
                cs@.len() as int,
                stop_pred(cs@, stop),
            ),
        decreases cs.len() - k,
    {
        let c = cs[k];
        let hit = match stop {
            Stop::NonSpace => !(c == ' ' || c == '\t' || c == '\n' || c == '\r' || c == '\x0B'
                || c == '\x0C'),
            Stop::Quote => c == '"' || c == '\'',
            Stop::TagClose => c == '>',
            Stop::LineEnd => c == '\n',
        };
        if hit {
            return k;
        }
        k = k + 1;
    }
    k
}

/// The value of an assignment whose key ends before `j`, if one follows.
pub fn value_after(cs: &Vec<char>, j: usize) -> (r: Option<String>)
    requires
        j <= cs@.len(),
    ensures
        match value_after_key(cs@, j as int) {
            Some(v) => r matches Some(s) && s@ == v,
            None => r is None,
        },
{
    let j1 = if j < cs.len() && (cs[j] == '"' || cs[j] == '\'') {
        j + 1
    } else {
        j
    };
    let j2 = scan(cs, j1, Stop::NonSpace);
    if j2 < cs.len() && (cs[j2] == ':' || cs[j2] == '=') {
        let j3 = scan(cs, j2 + 1, Stop::NonSpace);
        if j3 < cs.len() && (cs[j3] == '"' || cs[j3] == '\'') {
            let k = scan(cs, j3 + 1, Stop::Quote);
            if j3 + 1 < k && k < cs.len() {
                return Some(string_of(cs, j3 + 1, k));
            }
        }
    }
    None
}

/// The value of the first assignment of `key` in `cs`.
pub fn find_assignment(cs: &Vec<char>, key: &Vec<char>) -> (r: Option<String>)
    ensures
        match assigned_value(cs@, key@) {
            Some(v) => r matches Some(s) && s@ == v,
            None => r is None,
        },
{
    let mut p: usize = 0;
    while p < cs.len()
        invariant
            p <= cs@.len(),
            first_index(0, cs@.len() as int, assignment_pred(cs@, key@)) == first_index(
                p as int,
                cs@.len() as int,
                assignment_pred(cs@, key@),
            ),
        decreases cs.len() - p,
    {
        if matches_at(cs, p, key) {
            let v = value_after(cs, p + key.len());
            if v.is_some() {
                return v;
            }
        }
        p = p + 1;
    }
    None
}

/// The assigned value of `key`, or the empty text.
fn field_or_empty(cs: &Vec<char>, key: &str) -> (r: String)
    ensures
        r@ == assigned_or_empty(cs@, key@),
{
    match find_assignment(cs, &chars_of(key)) {
        Some(v) => v,
        None => String::new(),
    }
}

/// Scans a captive redirect page for the gateway parameters. The challenge is
/// mandatory; each other field is the empty text when it has no assignment.
/// The first assignment of a key wins.
pub fn parse_gateway_html(html: &str) -> (r: Result<GatewayConfig, ExtractionError>)
    ensures
        assigned_value(html@, "chap_challenge"@) is None <==> r is Err,
        r is Err ==> r == Err::<GatewayConfig, ExtractionError>(ExtractionError::ChallengeNotFound),
        (forall|p: int| !occurs_at(html@, p, "chap_challenge"@)) ==> r is Err,
        r matches Ok(gw) ==> {
            &&& assigned_value(html@, "chap_challenge"@) == Some(gw.chap_challenge@)
            &&& gw.mac@ == assigned_or_empty(html@, "mac"@)
            &&& gw.ip@ == assigned_or_empty(html@, "ip"@)
            &&& gw.chap_id@ == assigned_or_empty(html@, "chap_id"@)
            &&& gw.link_login_only@ == assigned_or_empty(html@, "link-login-only"@)
        },
{
    let cs = chars_of(html);
    proof {
        if forall|p: int| !occurs_at(html@, p, "chap_challenge"@) {
            lemma_first_index_none(0, cs@.len() as int, assignment_pred(cs@, "chap_challenge"@));
        }
    }
    let chap_challenge = match find_assignment(&cs, &chars_of("chap_challenge")) {
        Some(v) => v,
        None => {
            return Err(ExtractionError::ChallengeNotFound);
        },
    };
    Ok(
        GatewayConfig {
            mac: field_or_empty(&cs, "mac"),
            ip: field_or_empty(&cs, "ip"),
            chap_id: field_or_empty(&cs, "chap_id"),
            chap_challenge,
            link_login_only: field_or_empty(&cs, "link-login-only"),
        },
    )
}

/// The bounds of a quoted text whose opening quote is at `i`; it may be empty.
pub open spec fn quoted_at(cs: Seq<char>, i: int) -> Option<(int, int)> {
    if 0 <= i < cs.len() && is_quote(cs[i]) {
        let k = scan_to(cs, i + 1, Stop::Quote);
        if k < cs.len() {
            Some((i + 1, k))
        } else {
            None
        }
    } else {
        None
    }
}

/// An attribute `name="<name>"` at `i`, quotes single or double.
pub open spec fn name_attr_at(cs: Seq<char>, i: int, name: Seq<char>) -> bool {
    &&& occurs_at(cs, i, "name="@)
    &&& i + 5 < cs.len() && is_quote(cs[i + 5])
    &&& occurs_at(cs, i + 6, name)
    &&& i + 6 + name.len() < cs.len() && is_quote(cs[i + 6 + name.len()])
}

/// The bounds of the value of an attribute `value="..."` at `i`.
pub open spec fn value_attr_at(cs: Seq<char>, i: int) -> Option<(int, int)> {
    if occurs_at(cs, i, "value="@) {
        quoted_at(cs, i + 6)
    } else {
        None
    }
}

/// The text of the value attribute at `v`.
pub open spec fn value_text(cs: Seq<char>, v: int) -> Seq<char> {
    match value_attr_at(cs, v) {
        Some(b) => cs.subrange(b.0, b.1),
        None => Seq::empty(),
    }
}

/// The positions of `cs` where a `name` attribute naming `name` starts.
pub open spec fn name_pred(cs: Seq<char>, name: Seq<char>) -> spec_fn(int) -> bool {
    |q: int| name_attr_at(cs, q, name)
}

/// The positions of `cs` where a `value` attribute starts.
pub open spec fn value_pred(cs: Seq<char>) -> spec_fn(int) -> bool {
    |v: int| value_attr_at(cs, v) is Some
}

/// The end of the tag whose text goes on from `from`: its first `>`.
pub open spec fn tag_close(cs: Seq<char>, from: int) -> int {
    scan_to(cs, from, Stop::TagClose)
}

/// In the `<input` tag at `p`: the value of the first `value` attribute after
/// the first `name` attribute that names `name`.
pub open spec fn name_then_value(cs: Seq<char>, p: int, name: Seq<char>) -> Option<Seq<char>> {
    if occurs_at(cs, p, "<input"@) {
        let close = tag_close(cs, p + 6);
        match first_index(p + 6, close, name_pred(cs, name)) {
            Some(q) => match first_index(q + 7 + name.len(), close, value_pred(cs)) {
                Some(v) => Some(value_text(cs, v)),
                None => None,
            },
            None => None,
        }
    } else {
        None
    }
}

/// A `name` attribute that names `name` follows the value attribute at `v`
/// in the same tag.
pub open spec fn name_follows(cs: Seq<char>, v: int, name: Seq<char>) -> bool {
    value_attr_at(cs, v) matches Some(b) && first_index(
        b.1 + 1,
        tag_close(cs, b.1 + 1),
        name_pred(cs, name),
    ) is Some
}

/// The positions of `cs` of a `value` attribute that a `name` attribute naming `name` follows.
pub open spec fn value_name_pred(cs: Seq<char>, name: Seq<char>) -> spec_fn(int) -> bool {
    |v: int| name_follows(cs, v, name)
}

/// In the `<input` tag at `p`: the value of the first `value` attribute that
/// a `name` attribute naming `name` follows.
pub open spec fn value_then_name(cs: Seq<char>, p: int, name: Seq<char>) -> Option<Seq<char>> {
    if occurs_at(cs, p, "<input"@) {
        let close = tag_close(cs, p + 6);
        match first_index(p + 6, close, value_name_pred(cs, name)) {
            Some(v) => Some(value_text(cs, v)),
            None => None,
        }
    } else {
        None
    }
}

/// The positions of `cs` of an input tag that gives a value read name first.
pub open spec fn name_first_pred(cs: Seq<char>, name: Seq<char>) -> spec_fn(int) -> bool {
    |p: int| name_then_value(cs, p, name) is Some
}

/// The positions of `cs` of an input tag that gives a value read value first.
pub open spec fn value_first_pred(cs: Seq<char>, name: Seq<char>) -> spec_fn(int) -> bool {
    |p: int| value_then_name(cs, p, name) is Some
}

/// The value of the hidden input named `name`: the first input tag with the
/// name attribute before the value attribute; failing that, the first with
/// the value attribute before the name attribute.
pub open spec fn input_value(cs: Seq<char>, name: Seq<char>) -> Option<Seq<char>> {
    match first_index(0, cs.len() as int, name_first_pred(cs, name)) {
        Some(p) => name_then_value(cs, p, name),
        None => match first_index(0, cs.len() as int, value_first_pred(cs, name)) {
            Some(p) => value_then_name(cs, p, name),
            None => None,
        },
    }
}

/// Tests for an attribute `name="<name>"` at `i`.
fn name_attr(cs: &Vec<char>, i: usize, name: &Vec<char>) -> (r: bool)
    ensures
        r == name_attr_at(cs@, i as int, name@),
{
    let len = cs.len();
    proof {
        reveal_strlit("name=");
    }
    let attr = chars_of("name=");
    if !matches_at(cs, i, &attr) {
        return false;
    }
    if i + 5 >= cs.len() || !(cs[i + 5] == '"' || cs[i + 5] == '\'') {
        return false;
    }
    if !matches_at(cs, i + 6, name) {
        return false;
    }
    let e = i + 6 + name.len();
    e < cs.len() && (cs[e] == '"' || cs[e] == '\'')
}

/// The bounds of the value of an attribute `value="..."` at `i`.
fn value_attr(cs: &Vec<char>, i: usize) -> (r: Option<(usize, usize)>)
    ensures
        match value_attr_at(cs@, i as int) {
            Some(b) => r matches Some(c) && c.0 as int == b.0 && c.1 as int == b.1,
            None => r is None,
        },
        r matches Some(c) ==> c.0 <= c.1 < cs@.len(),
{
    let len = cs.len();
    proof {
        reveal_strlit("value=");
    }
    let attr = chars_of("value=");
    if !matches_at(cs, i, &attr) {
        return None;
    }
    let o = i + 6;
    if o < cs.len() && (cs[o] == '"' || cs[o] == '\'') {
        let k = scan(cs, o + 1, Stop::Quote);
        if k < cs.len() {
            return Some((o + 1, k));
        }
    }
    None
}

/// The first position in `from..to` of a `name` attribute naming `name`.
fn find_name_attr(cs: &Vec<char>, from: usize, to: usize, name: &Vec<char>) -> (r: Option<usize>)
    requires
        to <= cs@.len(),
    ensures
        match first_index(from as int, to as int, name_pred(cs@, name@)) {
            Some(q) => r == Some(q as usize),
            None => r is None,
        },
{
    let mut q: usize = from;
    while q < to
        invariant
            to <= cs@.len(),
            from <= q || q == from,
            first_index(from as int, to as int, name_pred(cs@, name@)) == first_index(
                q as int,
                to as int,
                name_pred(cs@, name@),
            ),
            q >= from,
        decreases to - q,
    {
        if name_attr(cs, q, name) {
            return Some(q);
        }
        q = q + 1;
    }
    None
}

/// The first position in `from..to` of a `value` attribute.
fn find_value_attr(cs: &Vec<char>, from: usize, to: usize) -> (r: Option<usize>)
    requires
        to <= cs@.len(),
    ensures
        match first_index(from as int, to as int, value_pred(cs@)) {
            Some(v) => r == Some(v as usize),
            None => r is None,
        },
{
    let mut v: usize = from;
    while v < to
        invariant
            to <= cs@.len(),
            v >= from,
            first_index(from as int, to as int, value_pred(cs@)) == first_index(
                v as int,
                to as int,
                value_pred(cs@),
            ),
        decreases to - v,
    {
        if value_attr(cs, v).is_some() {
            return Some(v);
        }
        v = v + 1;
    }
    None
}

/// The input tag at `p` read with the name attribute first.
fn tag_name_then_value(cs: &Vec<char>, p: usize, name: &Vec<char>) -> (r: Option<String>)
    requires
        p < cs@.len(),
    ensures
        match name_then_value(cs@, p as int, name@) {
            Some(v) => r matches Some(s) && s@ == v,
            None => r is None,
        },
{
    let len = cs.len();
    proof {
        reveal_strlit("<input");
    }
    if !matches_at(cs, p, &chars_of("<input")) {
        return None;
    }
    let close = scan(cs, p + 6, Stop::TagClose);
    match find_name_attr(cs, p + 6, close, name) {
        Some(q) => {
            proof {
                lemma_first_index_some(p + 6, close as int, name_pred(cs@, name@));
            }
            if q + 7 + name.len() > close {
                proof {
                    lemma_first_index_none(q + 7 + name@.len(), close as int, value_pred(cs@));
                }
                return None;
            }
            match find_value_attr(cs, q + 7 + name.len(), close) {
                Some(v) => {
                    proof {
                        lemma_first_index_some(
                            q + 7 + name@.len(),
                            close as int,
                            value_pred(cs@),
                        );
                    }
                    let b = value_attr(cs, v);
                    match b {
                        Some(b) => Some(string_of(cs, b.0, b.1)),
                        None => None,
                    }
                },
                None => None,
            }
        },
        None => None,
    }
}

/// Whether a `name` attribute naming `name` follows the value attribute at
/// `v` in the same tag.
fn name_follows_value(cs: &Vec<char>, v: usize, name: &Vec<char>) -> (r: bool)
    ensures
        r == name_follows(cs@, v as int, name@),
{
    let len = cs.len();
    match value_attr(cs, v) {
        Some(b) => {
            let close = scan(cs, b.1 + 1, Stop::TagClose);
            find_name_attr(cs, b.1 + 1, close, name).is_some()
        },
        None => false,
    }
}

/// The input tag at `p` read with the value attribute first.
fn tag_value_then_name(cs: &Vec<char>, p: usize, name: &Vec<char>) -> (r: Option<String>)
    requires
        p < cs@.len(),
    ensures
        match value_then_name(cs@, p as int, name@) {
            Some(v) => r matches Some(s) && s@ == v,
            None => r is None,
        },
{
    let len = cs.len();
    proof {
        reveal_strlit("<input");
    }
    if !matches_at(cs, p, &chars_of("<input")) {
        return None;
    }
    let close = scan(cs, p + 6, Stop::TagClose);
    let mut v: usize = p + 6;
    while v < close
        invariant
            close <= cs@.len(),
            p + 6 <= v,
            close as int == tag_close(cs@, p + 6),
            occurs_at(cs@, p as int, "<input"@),
            first_index(p + 6, close as int, value_name_pred(cs@, name@)) == first_index(
                v as int,
                close as int,
                value_name_pred(cs@, name@),
            ),
        decreases close - v,
    {
        if name_follows_value(cs, v, name) {
            let b = value_attr(cs, v);
            proof {
                assert(value_name_pred(cs@, name@)(v as int));
                assert(first_index(v as int, close as int, value_name_pred(cs@, name@)) == Some(
                    v as int,
                ));
            }
            return match b {
                Some(b) => Some(string_of(cs, b.0, b.1)),
                None => None,
            };
        }
        v = v + 1;
    }
    None
}

/// The value of the hidden input named `name`, read as `input_value` says.
fn find_input_value(cs: &Vec<char>, name: &Vec<char>) -> (r: Option<String>)
    ensures
        match input_value(cs@, name@) {
            Some(v) => r matches Some(s) && s@ == v,
            None => r is None,
        },
{
    let mut p: usize = 0;
    while p < cs.len()
        invariant
            p <= cs@.len(),
            first_index(0, cs@.len() as int, name_first_pred(cs@, name@)) == first_index(
                p as int,
                cs@.len() as int,
                name_first_pred(cs@, name@),
            ),
        decreases cs.len() - p,
    {
        let found = tag_name_then_value(cs, p, name);
        if found.is_some() {
            return found;
        }
        p = p + 1;
    }
    let mut p: usize = 0;
    while p < cs.len()
        invariant
            p <= cs@.len(),
            first_index(0, cs@.len() as int, name_first_pred(cs@, name@)) is None,
            first_index(0, cs@.len() as int, value_first_pred(cs@, name@)) == first_index(
                p as int,
                cs@.len() as int,
                value_first_pred(cs@, name@),
            ),
        decreases cs.len() - p,
    {
        let found = tag_value_then_name(cs, p, name);
        if found.is_some() {
            return found;
        }
        p = p + 1;
    }
    None
}

/// Reads the hidden inputs `username` and `password` of an authentication
/// form, whichever order their attributes come in.
pub fn parse_credentials(html: &str) -> (r: Result<Credentials, ExtractionError>)
    ensures
        match (input_value(html@, "username"@), input_value(html@, "password"@)) {
            (Some(u), Some(p)) => r matches Ok(c) && c.username@ == u && c.password@ == p,
            (None, _) => r == Err::<Credentials, ExtractionError>(
                ExtractionError::UsernameNotFound,
            ),
            (Some(_), None) => r == Err::<Credentials, ExtractionError>(
                ExtractionError::PasswordNotFound,
            ),
        },
{
    let cs = chars_of(html);
    let username = match find_input_value(&cs, &chars_of("username")) {
        Some(u) => u,
        None => {
            return Err(ExtractionError::UsernameNotFound);
        },
    };
    let password = match find_input_value(&cs, &chars_of("password")) {
        Some(p) => p,
        None => {
            return Err(ExtractionError::PasswordNotFound);
        },
    };
    Ok(Credentials { username, password })
}

/// What a search finds lies in its range and meets its predicate.
pub proof fn lemma_first_index_some(from: int, to: int, pred: spec_fn(int) -> bool)
    ensures
        first_index(from, to, pred) matches Some(k) ==> from <= k < to && pred(k),
    decreases to - from,
{
    if from < to && !pred(from) {
        lemma_first_index_some(from + 1, to, pred);
    }
}

/// A search finds nothing in a range where its predicate never holds.
pub proof fn lemma_first_index_none(from: int, to: int, pred: spec_fn(int) -> bool)
    requires
        forall|k: int| from <= k < to ==> !#[trigger] pred(k),
    ensures
        first_index(from, to, pred) is None,
    decreases to - from,
{
    if from < to {
        lemma_first_index_none(from + 1, to, pred);
    }
}

/// Text without quotes, angle brackets or `=`: it cannot open, close or
/// extend a tag or an attribute.
pub open spec fn is_plain(s: Seq<char>) -> bool {
    forall|i: int| 0 <= i < s.len() ==> !is_quote(#[trigger] s[i]) && s[i] != '<' && s[i] != '>' && s[i] != '='
}

/// A hidden input named `name` with value `value`, its name attribute
/// first or its value attribute first.
pub open spec fn input_tag(name: Seq<char>, value: Seq<char>, name_first: bool) -> Seq<char> {
    if name_first {
        "<input name=\""@ + name + "\" value=\""@ + value + "\">"@
    } else {
        "<input value=\""@ + value + "\" name=\""@ + name + "\">"@
    }
}

/// A search finds the first position of its range where its predicate holds.
pub proof fn lemma_first_index_at(from: int, to: int, pred: spec_fn(int) -> bool, k: int)
    requires
        from <= k < to,
        pred(k),
        forall|j: int| from <= j < k ==> !#[trigger] pred(j),
    ensures
        first_index(from, to, pred) == Some(k),
    decreases k - from,
{
    if from < k {
        lemma_first_index_at(from + 1, to, pred, k);
    }
}

/// Where the text holds no `=` at `j + 4`, no `name=` starts at `j`; and
/// likewise at `j + 5` for `value=`.
pub proof fn lemma_attr_needs_eq(cs: Seq<char>, j: int, name: Seq<char>)
    ensures
        0 <= j + 4 < cs.len() && cs[j + 4] != '=' ==> !name_attr_at(cs, j, name),
        0 <= j + 5 < cs.len() && cs[j + 5] != '=' ==> value_attr_at(cs, j) is None,
        0 <= j < cs.len() && cs[j] != '<' ==> !occurs_at(cs, j, "<input"@),
{
    reveal_strlit("name=");
    reveal_strlit("value=");
    reveal_strlit("<input");
    if occurs_at(cs, j, "name="@) {
        assert(cs.subrange(j, j + 5)[4] == cs[j + 4]);
    }
    if occurs_at(cs, j, "value="@) {
        assert(cs.subrange(j, j + 6)[5] == cs[j + 5]);
    }
    if occurs_at(cs, j, "<input"@) {
        assert(cs.subrange(j, j + 6)[0] == cs[j]);
    }
}

/// What may follow a hidden input in a form: nothing, or another input.
pub open spec fn harmless_tail(post: Seq<char>) -> bool {
    post.len() == 0 || (post.len() >= 6 && post.take(6) == "<input"@)
}

/// A hidden input with its name attribute first, between any `pre` and a
/// harmless tail: read with the name first it gives its value for its own
/// name and nothing for another name of the same length; read with the
/// value first it gives nothing.
#[verifier::rlimit(80)]
pub proof fn lemma_name_first_tag(
    pre: Seq<char>,
    post: Seq<char>,
    name: Seq<char>,
    other: Seq<char>,
    value: Seq<char>,
)
    requires
        is_plain(name),
        is_plain(value),
        name.len() > 0,
        other.len() == name.len(),
        harmless_tail(post),
    ensures
        name_then_value(pre + input_tag(name, value, true) + post, pre.len() as int, other) == if other
            == name {
            Some(value)
        } else {
            None
        },
        value_then_name(pre + input_tag(name, value, true) + post, pre.len() as int, other) is None,
{
    reveal_strlit("<input name=\"");
    reveal_strlit("\" value=\"");
    reveal_strlit("\">");
    reveal_strlit("name=");
    reveal_strlit("value=");
    reveal_strlit("<input");
    let tag = input_tag(name, value, true);
    let cs = pre + tag + post;
    let t = pre.len() as int;
    let n = name.len() as int;
    let v = value.len() as int;
    // <input name=" N " value=" V ">
    let close = t + 13 + n + 9 + v + 1;
    assert(cs.len() == close + 1 + post.len());
    assert(cs[close] == '>');
    assert(forall|k: int| t + 6 <= k < close ==> cs[k] != '>');
    lemma_first_index_at(t + 6, cs.len() as int, stop_pred(cs, Stop::TagClose), close);
    assert(tag_close(cs, t + 6) == close);
    assert(cs.subrange(t, t + 6) =~= "<input"@);
    assert(cs.subrange(t + 7, t + 12) =~= "name="@);
    assert(cs.subrange(t + 13, t + 13 + n) =~= name);
    assert(forall|k: int| close < k < close + 7 && k < cs.len() ==> cs[k] != '=') by {
        if post.len() > 0 {
            assert(forall|k: int| 0 <= k < 6 ==> post[k] == post.take(6)[k]);
        }
    }
    assert forall|j: int| t + 6 <= j < close && j != t + 7 implies !#[trigger] name_attr_at(
        cs,
        j,
        other,
    ) by {
        lemma_attr_needs_eq(cs, j, other);
        if j == t + 13 + n + 3 {
            assert(cs.subrange(j, j + 5)[0] == cs[j]);
        }
    }
    let vs = t + 13 + n + 2;
    assert(cs.subrange(vs, vs + 6) =~= "value="@);
    assert(forall|k: int| vs + 7 <= k < vs + 7 + v ==> !is_quote(cs[k]));
    assert(is_quote(cs[vs + 7 + v]));
    lemma_first_index_at(vs + 7, cs.len() as int, stop_pred(cs, Stop::Quote), vs + 7 + v);
    assert(value_attr_at(cs, vs) == Some((vs + 7, vs + 7 + v)));
    assert forall|j: int| t + 6 <= j < close && j != vs implies #[trigger] value_attr_at(cs, j)
        is None by {
        lemma_attr_needs_eq(cs, j, other);
        if j == t + 6 {
            assert(cs.subrange(j, j + 6)[0] == cs[j]);
        }
    }
    if other == name {
        assert(name_attr_at(cs, t + 7, other));
        lemma_first_index_at(t + 6, close, name_pred(cs, other), t + 7);
        lemma_first_index_at(t + 13 + n + 1, close, value_pred(cs), vs);
        assert(cs.subrange(vs + 7, vs + 7 + v) =~= value);
    } else {
        assert(!name_attr_at(cs, t + 7, other));
        lemma_first_index_none(t + 6, close, name_pred(cs, other));
    }
    assert forall|j: int| t + 6 <= j < close implies !#[trigger] value_name_pred(cs, other)(j) by {
        if j == vs {
            let e = vs + 7 + v;
            lemma_first_index_at(e + 1, cs.len() as int, stop_pred(cs, Stop::TagClose), close);
            assert forall|q: int| e + 1 <= q < close implies !#[trigger] name_pred(cs, other)(q) by {
                lemma_attr_needs_eq(cs, q, other);
            }
            lemma_first_index_none(e + 1, close, name_pred(cs, other));
        }
    }
    lemma_first_index_none(t + 6, close, value_name_pred(cs, other));
}

/// A hidden input with its value attribute first, between any `pre` and a
/// harmless tail: read with the value first it gives its value for its own
/// name and nothing for another name of the same length; read with the name
/// first it gives nothing.
#[verifier::rlimit(80)]
pub proof fn lemma_value_first_tag(
    pre: Seq<char>,
    post: Seq<char>,
    name: Seq<char>,
    other: Seq<char>,
    value: Seq<char>,
)
    requires
        is_plain(name),
        is_plain(value),
        name.len() > 0,
        other.len() == name.len(),
        harmless_tail(post),
    ensures
        value_then_name(pre + input_tag(name, value, false) + post, pre.len() as int, other) == if other
            == name {
            Some(value)
        } else {
            None
        },
        name_then_value(pre + input_tag(name, value, false) + post, pre.len() as int, other) is None,
{
    reveal_strlit("<input value=\"");
    reveal_strlit("\" name=\"");
    reveal_strlit("\">");
    reveal_strlit("name=");
    reveal_strlit("value=");
    reveal_strlit("<input");
    let tag = input_tag(name, value, false);
    let cs = pre + tag + post;
    let t = pre.len() as int;
    let n = name.len() as int;
    let v = value.len() as int;
    // <input value=" V " name=" N ">
    let b = t + 14 + v;
    let close = b + 9 + n;
    assert(cs.len() == close + 1 + post.len());
    assert(cs[close] == '>');
    assert(forall|k: int| t + 6 <= k < close ==> cs[k] != '>');
    lemma_first_index_at(t + 6, cs.len() as int, stop_pred(cs, Stop::TagClose), close);
    lemma_first_index_at(b + 1, cs.len() as int, stop_pred(cs, Stop::TagClose), close);
    assert(tag_close(cs, t + 6) == close);
    assert(tag_close(cs, b + 1) == close);
    assert(cs.subrange(t, t + 6) =~= "<input"@);
    assert(cs.subrange(b + 2, b + 7) =~= "name="@);
    assert(cs.subrange(b + 8, b + 8 + n) =~= name);
    assert(cs.subrange(t + 7, t + 13) =~= "value="@);
    assert(forall|k: int| close < k < close + 7 && k < cs.len() ==> cs[k] != '=') by {
        if post.len() > 0 {
            assert(forall|k: int| 0 <= k < 6 ==> post[k] == post.take(6)[k]);
        }
    }
    assert forall|j: int| t + 6 <= j < close && j != b + 2 implies !#[trigger] name_attr_at(
        cs,
        j,
        other,
    ) by {
        lemma_attr_needs_eq(cs, j, other);
        if j == t + 8 {
            assert(cs.subrange(t + 8, t + 13)[0] == 'a');
        }
    }
    if other == name {
        assert(name_attr_at(cs, b + 2, other));
        lemma_first_index_at(t + 6, close, name_pred(cs, other), b + 2);
    } else {
        assert(!name_attr_at(cs, b + 2, other));
        lemma_first_index_none(t + 6, close, name_pred(cs, other));
    }
    assert(forall|k: int| t + 14 <= k < b ==> !is_quote(cs[k]));
    assert(is_quote(cs[b]));
    lemma_first_index_at(t + 14, cs.len() as int, stop_pred(cs, Stop::Quote), b);
    assert(value_attr_at(cs, t + 7) == Some((t + 14, b)));
    assert forall|j: int| t + 6 <= j < close && j != t + 7 implies !#[trigger] value_name_pred(
        cs,
        other,
    )(j) by {
        lemma_attr_needs_eq(cs, j, other);
        if j == b + 1 {
            assert(cs.subrange(j, j + 6)[0] == cs[j]);
        }
    }
    lemma_attr_needs_eq(cs, b + 1, other);
    if other == name {
        lemma_first_index_at(b + 1, close, name_pred(cs, other), b + 2);
        assert(name_follows(cs, t + 7, other));
        lemma_first_index_at(t + 6, close, value_name_pred(cs, other), t + 7);
        assert(cs.subrange(t + 14, b) =~= value);
    } else {
        lemma_first_index_none(b + 1, close, name_pred(cs, other));
        lemma_first_index_none(t + 6, close, value_name_pred(cs, other));
    }
}

/// A form of two hidden inputs, `username` then `password`, each with its
/// name attribute first, or each with its value attribute first.
pub open spec fn credentials_form(username: Seq<char>, password: Seq<char>, name_first: bool) -> Seq<
    char,
> {
    input_tag("username"@, username, name_first) + input_tag("password"@, password, name_first)
}

/// The inputs of a credentials form are read alike whichever attribute
/// comes first in its tags: both orders give the username and the password
/// that the form holds.
pub proof fn lemma_credentials_attribute_order(username: Seq<char>, password: Seq<char>)
    requires
        is_plain(username),
        is_plain(password),
    ensures
        input_value(credentials_form(username, password, true), "username"@) == Some(username),
        input_value(credentials_form(username, password, true), "password"@) == Some(password),
        input_value(credentials_form(username, password, false), "username"@) == Some(username),
        input_value(credentials_form(username, password, false), "password"@) == Some(password),
{
    reveal_strlit("username");
    reveal_strlit("password");
    assert("username"@ != "password"@) by {
        assert("username"@[0] != "password"@[0]);
    }
    lemma_form_reads(username, password, true, "username"@);
    lemma_form_reads(username, password, true, "password"@);
    lemma_form_reads(username, password, false, "username"@);
    lemma_form_reads(username, password, false, "password"@);
}

/// In a credentials form, a tag opens only where one of its two inputs
/// starts.
proof fn lemma_form_tag_starts(username: Seq<char>, password: Seq<char>, name_first: bool)
    requires
        is_plain(username),
        is_plain(password),
    ensures
        forall|p: int|
            0 <= p < credentials_form(username, password, name_first).len() && p != 0 && p
                != input_tag("username"@, username, name_first).len() ==> #[trigger] credentials_form(
                username,
                password,
                name_first,
            )[p] != '<',
{
    reveal_strlit("username");
    reveal_strlit("password");
    reveal_strlit("<input name=\"");
    reveal_strlit("<input value=\"");
    reveal_strlit("\" value=\"");
    reveal_strlit("\" name=\"");
    reveal_strlit("\">");
    let t1 = input_tag("username"@, username, name_first);
    let t2 = input_tag("password"@, password, name_first);
    let cs = credentials_form(username, password, name_first);
    let t = t1.len() as int;
    assert forall|p: int| 0 <= p < cs.len() && p != 0 && p != t implies cs[p] != '<' by {
        if p < t {
            assert(cs[p] == t1[p]);
        } else {
            assert(cs[p] == t2[p - t]);
        }
    }
}

/// The two tag lemmas applied to the inputs of a credentials form.
proof fn lemma_form_tags(username: Seq<char>, password: Seq<char>, name_first: bool, key: Seq<char>)
    requires
        is_plain(username),
        is_plain(password),
        key.len() == 8,
    ensures
        ({
            let cs = credentials_form(username, password, name_first);
            let t = input_tag("username"@, username, name_first).len() as int;
            &&& name_then_value(cs, 0, key) == if name_first && key == "username"@ {
                Some(username)
            } else {
                None
            }
            &&& value_then_name(cs, 0, key) == if !name_first && key == "username"@ {
                Some(username)
            } else {
                None
            }
            &&& name_then_value(cs, t, key) == if name_first && key == "password"@ {
                Some(password)
            } else {
                None
            }
            &&& value_then_name(cs, t, key) == if !name_first && key == "password"@ {
                Some(password)
            } else {
                None
            }
        }),
{
    reveal_strlit("username");
    reveal_strlit("password");
    reveal_strlit("<input name=\"");
    reveal_strlit("<input value=\"");
    reveal_strlit("<input");
    let t1 = input_tag("username"@, username, name_first);
    let t2 = input_tag("password"@, password, name_first);
    let cs = credentials_form(username, password, name_first);
    let e = Seq::<char>::empty();
    assert(e + t1 + t2 =~= cs);
    assert(t1 + t2 + e =~= cs);
    assert(t2.take(6) =~= "<input"@);
    assert(is_plain("username"@));
    assert(is_plain("password"@));
    if name_first {
        lemma_name_first_tag(e, t2, "username"@, key, username);
        lemma_name_first_tag(t1, e, "password"@, key, password);
    } else {
        lemma_value_first_tag(e, t2, "username"@, key, username);
        lemma_value_first_tag(t1, e, "password"@, key, password);
    }
}

/// In a credentials form, no input is read at a position where none starts.
proof fn lemma_form_other_positions(
    username: Seq<char>,
    password: Seq<char>,
    name_first: bool,
    key: Seq<char>,
    cs: Seq<char>,
    t: int,
)
    requires
        is_plain(username),
        is_plain(password),
        cs == credentials_form(username, password, name_first),
        t == input_tag("username"@, username, name_first).len(),
    ensures
        forall|p: int| 0 <= p < cs.len() && p != 0 && p != t ==> !#[trigger] name_first_pred(cs, key)(p),
        forall|p: int| 0 <= p < cs.len() && p != 0 && p != t ==> !#[trigger] value_first_pred(cs, key)(p),
{
    lemma_form_tag_starts(username, password, name_first);
    assert forall|p: int| 0 <= p < cs.len() && p != 0 && p != t implies !#[trigger] name_first_pred(
        cs,
        key,
    )(p) by {
        lemma_attr_needs_eq(cs, p, key);
    }
    assert forall|p: int| 0 <= p < cs.len() && p != 0 && p != t implies !#[trigger] value_first_pred(
        cs,
        key,
    )(p) by {
        lemma_attr_needs_eq(cs, p, key);
    }
}

/// One reading of a credentials form.
proof fn lemma_form_reads(username: Seq<char>, password: Seq<char>, name_first: bool, key: Seq<char>)
    requires
        is_plain(username),
        is_plain(password),
        key == "username"@ || key == "password"@,
    ensures
        input_value(credentials_form(username, password, name_first), key) == if key == "username"@ {
            Some(username)
        } else {
            Some(password)
        },
{
    reveal_strlit("username");
    reveal_strlit("password");
    assert("username"@ != "password"@) by {
        assert("username"@[0] != "password"@[0]);
    }
    let cs = credentials_form(username, password, name_first);
    let t = input_tag("username"@, username, name_first).len() as int;
    lemma_form_tags(username, password, name_first, key);
    lemma_form_other_positions(username, password, name_first, key, cs, t);
    assert(0 < t < cs.len());
    if name_first {
        if key == "username"@ {
            lemma_first_index_at(0, cs.len() as int, name_first_pred(cs, key), 0);
        } else {
            lemma_first_index_at(0, cs.len() as int, name_first_pred(cs, key), t);
        }
    } else {
        lemma_first_index_none(0, cs.len() as int, name_first_pred(cs, key));
        if key == "username"@ {
            lemma_first_index_at(0, cs.len() as int, value_first_pred(cs, key), 0);
        } else {
            lemma_first_index_at(0, cs.len() as int, value_first_pred(cs, key), t);
        }
    }
}
} // verus!
