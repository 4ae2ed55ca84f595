//! Which requests may be sent to a printer's Moonraker server, and where.

use vstd::prelude::*;

use crate::kinds::texts;
use crate::offline::viewed;
use crate::text::same;

verus! {

/// A request that was sent.
#[derive(Clone, Debug, PartialEq, Eq)]
pub struct RequestRecord {
    pub method: String,
    pub path: String,
}

/// How a request is made.
#[derive(Clone, Copy, Debug, PartialEq, Eq, Structural)]
pub enum RequestMethod {
    Get,
    Post,
    Other,
}

/// The fixed routes that can be read.
pub open spec fn readable_route(s: Seq<Seq<char>>) -> bool {
    s == seq!["server"@, "info"@] || s == seq!["printer"@, "info"@] || s == seq![
        "printer"@,
        "objects"@,
        "list"@,
    ] || s == seq!["server"@, "history"@, "list"@]
}

/// The route of a G-code file, without steps up or in place.
pub open spec fn gcode_route(s: Seq<Seq<char>>) -> bool {
    &&& s.len() > 3
    &&& s[0] == "server"@
    &&& s[1] == "files"@
    &&& s[2] == "gcodes"@
    &&& forall|i: int|
        3 <= i < s.len() ==> #[trigger] s[i].len() > 0 && s[i] != "."@ && s[i] != ".."@
}

/// The requests that only read.
pub open spec fn allowed(method: RequestMethod, s: Seq<Seq<char>>) -> bool {
    match method {
        RequestMethod::Get => readable_route(s) || gcode_route(s),
        RequestMethod::Post => s == seq!["printer"@, "objects"@, "query"@],
        RequestMethod::Other => false,
    }
}

fn route_is2(s: &Vec<String>, a: &str, b: &str) -> (r: bool)
    ensures
        r == (texts(s@) == seq![a@, b@]),
{
    if s.len() != 2 {
        assert(texts(s@).len() != seq![a@, b@].len());
        return false;
    }
    assert(texts(s@)[0] == s@[0]@ && texts(s@)[1] == s@[1]@);
    let r: bool = same(s[0].as_str(), a) && same(s[1].as_str(), b);
    assert(r ==> texts(s@) == seq![a@, b@]);
    assert(seq![a@, b@][0] == a@ && seq![a@, b@][1] == b@);
    r
}

fn route_is3(s: &Vec<String>, a: &str, b: &str, c: &str) -> (r: bool)
    ensures
        r == (texts(s@) == seq![a@, b@, c@]),
{
    let ghost t = seq![a@, b@, c@];
    if s.len() != 3 {
        assert(texts(s@).len() != t.len());
        return false;
    }
    assert(texts(s@)[0] == s@[0]@ && texts(s@)[1] == s@[1]@ && texts(s@)[2] == s@[2]@);
    let r: bool = same(s[0].as_str(), a) && same(s[1].as_str(), b) && same(s[2].as_str(), c);
    assert(r ==> texts(s@) == t);
    assert(t[0] == a@ && t[1] == b@ && t[2] == c@);
    r
}

fn is_gcode_route(s: &Vec<String>) -> (r: bool)
    ensures
        r == gcode_route(texts(s@)),
{
    let ghost v = texts(s@);
    if s.len() <= 3 {
        return false;
    }
    assert(v[0] == s@[0]@ && v[1] == s@[1]@ && v[2] == s@[2]@);
    if !same(s[0].as_str(), "server") || !same(s[1].as_str(), "files") || !same(
        s[2].as_str(),
        "gcodes",
    ) {
        return false;
    }
    let mut i: usize = 3;
    while i < s.len()
        invariant
            3 <= i <= s@.len(),
            v == texts(s@),
            forall|k: int|
                3 <= k < i ==> #[trigger] v[k].len() > 0 && v[k] != "."@ && v[k] != ".."@,
        decreases s.len() - i,
    {
        let part: &str = s[i].as_str();
        assert(v[i as int] == part@);
        if part.unicode_len() == 0 || same(part, ".") || same(part, "..") {
            return false;
        }
        i = i + 1;
    }
    true
}

/// Whether a request only reads.
pub fn is_allowed(method: RequestMethod, segments: &Vec<String>) -> (r: bool)
    ensures
        r == allowed(method, texts(segments@)),
{
    match method {
        RequestMethod::Get => route_is2(segments, "server", "info") || route_is2(
            segments,
            "printer",
            "info",
        ) || route_is3(segments, "printer", "objects", "list") || route_is3(
            segments,
            "server",
            "history",
            "list",
        ) || is_gcode_route(segments),
        RequestMethod::Post => route_is3(segments, "printer", "objects", "query"),
        RequestMethod::Other => false,
    }
}

/// No request that changes a printer is allowed: apart from the object query, all are reads.
pub proof fn allowed_requests_only_read(method: RequestMethod, s: Seq<Seq<char>>)
    requires
        allowed(method, s),
    ensures
        method == RequestMethod::Get || (method == RequestMethod::Post && s == seq![
            "printer"@,
            "objects"@,
            "query"@,
        ]),
{
}

/// No allowed request leaves its directory.
pub proof fn allowed_requests_stay_in_place(method: RequestMethod, s: Seq<Seq<char>>, i: int)
    requires
        allowed(method, s),
        0 <= i < s.len(),
    ensures
        s[i] != ".."@,
{
    reveal_strlit("..");
    reveal_strlit("server");
    reveal_strlit("info");
    reveal_strlit("printer");
    reveal_strlit("objects");
    reveal_strlit("list");
    reveal_strlit("history");
    reveal_strlit("query");
    reveal_strlit("files");
    reveal_strlit("gcodes");
    assert(".."@.len() == 2);
    assert("server"@.len() == 6 && "info"@.len() == 4 && "printer"@.len() == 7 && "objects"@.len()
        == 7 && "list"@.len() == 4 && "history"@.len() == 7 && "query"@.len() == 5
        && "files"@.len() == 5 && "gcodes"@.len() == 6);
    if method == RequestMethod::Get && !readable_route(s) {
        if i >= 3 {
            assert(s[i].len() > 0);
        }
    } else {
        assert(s[i].len() > 2);
    }
}

/// A route as text.
pub open spec fn route_text(s: Seq<Seq<char>>) -> Seq<char>
    decreases s.len(),
{
    if s.len() == 0 {
        Seq::empty()
    } else {
        route_text(s.drop_last()) + "/"@ + s.last()
    }
}

/// A route as text.
pub fn route(segments: &Vec<String>) -> (r: String)
    ensures
        r@ == route_text(texts(segments@)),
{
    let ghost v = texts(segments@);
    let mut out: String = String::new();
    let mut i: usize = 0;
    assert(v.take(0) == Seq::<Seq<char>>::empty());
    assert(out@ == Seq::<char>::empty());
    while i < segments.len()
        invariant
            i <= segments@.len(),
            v == texts(segments@),
            out@ == route_text(v.take(i as int)),
        decreases segments.len() - i,
    {
        out.append("/");
        out.append(segments[i].as_str());
        proof {
            assert(v.take(i + 1).drop_last() == v.take(i as int));
            assert(v.take(i + 1).last() == segments@[i as int]@);
        }
        i = i + 1;
    }
    assert(v.take(i as int) == v);
    out
}

/// The route of a G-code file by its name, if the name is proper.
pub open spec fn file_segments(pieces: Seq<Seq<char>>, i: int) -> Seq<Seq<char>>
    decreases i,
{
    if i <= 0 {
        seq!["server"@, "files"@, "gcodes"@]
    } else if pieces[i - 1].len() == 0 {
        file_segments(pieces, i - 1)
    } else {
        file_segments(pieces, i - 1).push(pieces[i - 1])
    }
}

/// The route of a G-code file by its name; a name without parts, or with a step up or in place,
/// has none.
pub fn gcode_file_route(filename: &str) -> (r: Option<Vec<String>>)
    ensures
        ({
            let pieces = crate::text::split(filename@, '/');
            let s = file_segments(pieces, pieces.len() as int);
            match r {
                Some(v) => texts(v@) == s && gcode_route(s),
                None => !gcode_route(s),
            }
        }),
{
    let pieces: Vec<&str> = crate::text::split_char(filename, '/');
    let ghost p = crate::text::split(filename@, '/');
    let mut out: Vec<String> = Vec::new();
    out.push("server".to_owned());
    out.push("files".to_owned());
    out.push("gcodes".to_owned());
    assert(texts(out@) == seq!["server"@, "files"@, "gcodes"@]);
    let mut i: usize = 0;
    while i < pieces.len()
        invariant
            i <= pieces@.len(),
            p == crate::text::views(pieces@),
            texts(out@) == file_segments(p, i as int),
        decreases pieces.len() - i,
    {
        assert(p[i as int] == pieces@[i as int]@);
        if pieces[i].unicode_len() > 0 {
            let ghost before = out@;
            let part: String = pieces[i].to_owned();
            let ghost t = part@;
            out.push(part);
            assert(texts(out@) == texts(before).push(t));
        }
        i = i + 1;
    }
    if is_gcode_route(&out) {
        Some(out)
    } else {
        None
    }
}

/// An address as `url::Url` writes it; none for a text that is no address.
pub uninterp spec fn parsed_address(address: Seq<char>) -> Option<Seq<char>>;

/// `url::Url::parse`, as text. Nothing is said of the text but that it depends on the address
/// alone.
#[verifier::external_body]
fn parse_address(address: &str) -> (r: Option<String>)
    ensures
        viewed(r) == parsed_address(address@),
{
    let url = url::Url::parse(address).ok()?;
    Some(url.to_string())
}

/// An address with the name of its user replaced; none for a text that is no address.
pub uninterp spec fn with_username(address: Seq<char>, username: Seq<char>) -> Option<Seq<char>>;

/// `url::Url::set_username` on the address, which stays as it is where the call fails. A name is
/// only taken away: `url` cannot hold an address of any length.
#[verifier::external_body]
fn set_username(address: &str, username: &str) -> (r: Option<String>)
    requires
        username@.len() == 0,
    ensures
        viewed(r) == with_username(address@, username@),
{
    let mut url = url::Url::parse(address).ok()?;
    let _ = url.set_username(username);
    Some(url.to_string())
}

/// An address with its password replaced; none for a text that is no address.
pub uninterp spec fn with_password(
    address: Seq<char>,
    password: Option<Seq<char>>,
) -> Option<Seq<char>>;

/// `url::Url::set_password` on the address, which stays as it is where the call fails. A password
/// is only taken away.
#[verifier::external_body]
fn set_password(address: &str, password: Option<&str>) -> (r: Option<String>)
    requires
        password is None,
    ensures
        viewed(r) == with_password(address@, part(password)),
{
    let mut url = url::Url::parse(address).ok()?;
    let _ = url.set_password(password);
    Some(url.to_string())
}

/// An address with its query replaced; none for a text that is no address.
pub uninterp spec fn with_query(
    address: Seq<char>,
    query: Option<Seq<char>>,
) -> Option<Seq<char>>;

/// `url::Url::set_query` on the address. A query is only taken away.
#[verifier::external_body]
fn set_query(address: &str, query: Option<&str>) -> (r: Option<String>)
    requires
        query is None,
    ensures
        viewed(r) == with_query(address@, part(query)),
{
    let mut url = url::Url::parse(address).ok()?;
    url.set_query(query);
    Some(url.to_string())
}

/// An address with its fragment replaced; none for a text that is no address.
pub uninterp spec fn with_fragment(
    address: Seq<char>,
    fragment: Option<Seq<char>>,
) -> Option<Seq<char>>;

/// `url::Url::set_fragment` on the address. A fragment is only taken away.
#[verifier::external_body]
fn set_fragment(address: &str, fragment: Option<&str>) -> (r: Option<String>)
    requires
        fragment is None,
    ensures
        viewed(r) == with_fragment(address@, part(fragment)),
{
    let mut url = url::Url::parse(address).ok()?;
    url.set_fragment(fragment);
    Some(url.to_string())
}

/// An address without an empty last segment of its path; none for an address that has no path,
/// or a text that is no address.
pub uninterp spec fn without_empty_end(address: Seq<char>) -> Option<Seq<char>>;

/// `pop_if_empty` on the path of the address, which `url::Url::path_segments_mut` gives. That call
/// panics where the path ends past `u32::MAX`; a written address is in ASCII, a byte to a
/// character.
#[verifier::external_body]
fn drop_empty_end(address: &str) -> (r: Option<String>)
    requires
        parsed_address(address@) matches Some(a) ==> a.len() <= 0xffff_ffff,
    ensures
        viewed(r) == without_empty_end(address@),
{
    let mut url = url::Url::parse(address).ok()?;
    url.path_segments_mut().ok()?.pop_if_empty();
    Some(url.to_string())
}

/// How much longer segments can make an address, at most.
pub open spec fn growth(segments: Seq<Seq<char>>) -> nat
    decreases segments.len(),
{
    if segments.len() == 0 {
        0
    } else {
        growth(segments.drop_last()) + 12 * segments.last().len() + 1
    }
}

/// An address with segments added to its path; none for an address that has no path, or a text
/// that is no address.
pub uninterp spec fn with_segments(
    address: Seq<char>,
    segments: Seq<Seq<char>>,
) -> Option<Seq<char>>;

/// `extend` on the path of the address, which `url::Url::path_segments_mut` gives. It adds a slash
/// for a segment and at most three bytes for each of the up to four bytes of a character, and
/// panics where a part of the address would then end past `u32::MAX`.
#[verifier::external_body]
fn add_segments(address: &str, segments: &Vec<String>) -> (r: Option<String>)
    requires
        parsed_address(address@) matches Some(a) ==> a.len() + growth(texts(segments@))
            <= 0xffff_ffff,
    ensures
        viewed(r) == with_segments(address@, texts(segments@)),
{
    let mut url = url::Url::parse(address).ok()?;
    url.path_segments_mut().ok()?.extend(segments);
    Some(url.to_string())
}

/// The characters of a part of an address.
pub open spec fn part(t: Option<&str>) -> Option<Seq<char>> {
    match t {
        Some(s) => Some(s@),
        None => None,
    }
}

/// Why a route has no address.
#[derive(Clone, Copy, Debug, PartialEq, Eq, Structural)]
pub enum AddressFault {
    Unreadable,
    CannotBeBase,
    TooLong,
}

pub type Address = Result<Seq<char>, AddressFault>;

pub open spec fn address_view(r: Result<String, AddressFault>) -> Address {
    match r {
        Ok(t) => Ok(t@),
        Err(e) => Err(e),
    }
}

/// What could be made of an address, or the fault that nothing could be made of it.
pub open spec fn made_or(made: Option<Seq<char>>, fault: AddressFault) -> Address {
    match made {
        Some(t) => Ok(t),
        None => Err(fault),
    }
}

/// What could be made of an address, or the fault that nothing could be made of it.
pub fn address_from(made: Option<String>, fault: AddressFault) -> (r: Result<String, AddressFault>)
    ensures
        address_view(r) == made_or(viewed(made), fault),
{
    match made {
        Some(t) => Ok(t),
        None => Err(fault),
    }
}

/// An address without its query.
pub open spec fn queryless(address: Seq<char>) -> Address {
    match parsed_address(address) {
        Some(a) => made_or(with_query(a, None), AddressFault::Unreadable),
        None => Err(AddressFault::Unreadable),
    }
}

fn drop_query(address: &str) -> (r: Result<String, AddressFault>)
    ensures
        address_view(r) == queryless(address@),
{
    match parse_address(address) {
        Some(a) => address_from(set_query(a.as_str(), None), AddressFault::Unreadable),
        None => Err(AddressFault::Unreadable),
    }
}

/// Whether an address, grown by `more`, is of a length that `url` can work on.
pub open spec fn fits(address: Seq<char>, more: nat) -> bool {
    more <= 0xffff_ffff && (parsed_address(address) matches Some(a) ==> a.len() + more
        <= 0xffff_ffff)
}

proof fn lemma_growth(segments: Seq<Seq<char>>, i: int, j: int)
    requires
        0 <= i <= j <= segments.len(),
    ensures
        growth(segments.take(i)) <= growth(segments.take(j)),
    decreases j - i,
{
    if i < j {
        lemma_growth(segments, i, j - 1);
        assert(segments.take(j).drop_last() == segments.take(j - 1));
    }
}

/// How much longer segments can make an address, if that is within bounds.
fn bounded_growth(segments: &Vec<String>) -> (r: Option<u64>)
    ensures
        match r {
            Some(n) => n == growth(texts(segments@)) && n <= 0xffff_ffff,
            None => growth(texts(segments@)) > 0xffff_ffff,
        },
{
    let ghost v = texts(segments@);
    let mut total: u64 = 0;
    let mut i: usize = 0;
    assert(v.take(0) == Seq::<Seq<char>>::empty());
    while i < segments.len()
        invariant
            i <= segments@.len(),
            v == texts(segments@),
            total <= 0xffff_ffff,
            total == growth(v.take(i as int)),
        decreases segments.len() - i,
    {
        let n: usize = segments[i].as_str().unicode_len();
        proof {
            assert(v[i as int] == segments@[i as int]@);
            assert(v.take(i + 1).drop_last() == v.take(i as int));
            assert(v.take(i + 1).last() == v[i as int]);
            lemma_growth(v, i + 1, v.len() as int);
            assert(v.take(v.len() as int) == v);
        }
        if n as u64 > 0xffff_ffff || total + 12 * n as u64 + 1 > 0xffff_ffff {
            return None;
        }
        total = total + 12 * n as u64 + 1;
        i = i + 1;
    }
    assert(v.take(i as int) == v);
    Some(total)
}

fn has_room(address: &str, more: u64) -> (r: bool)
    requires
        more <= 0xffff_ffff,
    ensures
        r == fits(address@, more as nat),
{
    match parse_address(address) {
        Some(a) => {
            let n: usize = a.as_str().unicode_len();
            n as u64 <= 0xffff_ffff - more
        },
        None => true,
    }
}

/// The address of a route below a base. An address that is too long to be worked on is refused.
pub open spec fn route_below(base: Seq<char>, segments: Seq<Seq<char>>) -> Address {
    if !fits(base, 0) {
        Err(AddressFault::TooLong)
    } else {
        match without_empty_end(base) {
            Some(a) => if fits(a, growth(segments)) {
                made_or(with_segments(a, segments), AddressFault::CannotBeBase)
            } else {
                Err(AddressFault::TooLong)
            },
            None => Err(AddressFault::CannotBeBase),
        }
    }
}

/// The address of a route below a base.
pub fn route_address(base: &str, segments: &Vec<String>) -> (r: Result<String, AddressFault>)
    ensures
        address_view(r) == route_below(base@, texts(segments@)),
{
    if !has_room(base, 0) {
        return Err(AddressFault::TooLong);
    }
    let a: String = match drop_empty_end(base) {
        Some(a) => a,
        None => {
            return Err(AddressFault::CannotBeBase);
        },
    };
    match bounded_growth(segments) {
        Some(more) => if has_room(a.as_str(), more) {
            address_from(add_segments(a.as_str(), segments), AddressFault::CannotBeBase)
        } else {
            Err(AddressFault::TooLong)
        },
        None => Err(AddressFault::TooLong),
    }
}

/// The address of a route below an address, whose query does not belong to it.
pub open spec fn endpoint_of(base: Seq<char>, segments: Seq<Seq<char>>) -> Address {
    match queryless(base) {
        Ok(a) => route_below(a, segments),
        Err(e) => Err(e),
    }
}

/// The address of a route below an address, whose query does not belong to it.
pub fn endpoint(base: &str, segments: &Vec<String>) -> (r: Result<String, AddressFault>)
    ensures
        address_view(r) == endpoint_of(base@, texts(segments@)),
{
    match drop_query(base) {
        Ok(a) => route_address(a.as_str(), segments),
        Err(e) => Err(e),
    }
}

/// The base of the requests that only read: an address without query and fragment that has a
/// path and is not too long to be worked on.
pub open spec fn read_only_base(address: Seq<char>) -> Address {
    match queryless(address) {
        Ok(a) => match with_fragment(a, None) {
            Some(b) => if !fits(b, 0) {
                Err(AddressFault::TooLong)
            } else if without_empty_end(b) is Some {
                Ok(b)
            } else {
                Err(AddressFault::CannotBeBase)
            },
            None => Err(AddressFault::Unreadable),
        },
        Err(e) => Err(e),
    }
}

/// The base of the requests that only read.
pub fn base_address(address: &str) -> (r: Result<String, AddressFault>)
    ensures
        address_view(r) == read_only_base(address@),
{
    let a: String = match drop_query(address) {
        Ok(a) => a,
        Err(e) => {
            return Err(e);
        },
    };
    match set_fragment(a.as_str(), None) {
        Some(b) => if !has_room(b.as_str(), 0) {
            Err(AddressFault::TooLong)
        } else {
            match drop_empty_end(b.as_str()) {
                Some(_) => Ok(b),
                None => Err(AddressFault::CannotBeBase),
            }
        },
        None => Err(AddressFault::Unreadable),
    }
}

/// A request as it is to be sent, but for its query and its body.
#[derive(Clone, Debug)]
pub struct PlannedRequest<S = String> {
    pub method: RequestMethod,
    pub address: S,
    pub header: Option<(S, S)>,
}

/// Why a request is not sent.
#[derive(Clone, Debug)]
pub enum RequestFault<S = String> {
    Rejected(S),
    Address(AddressFault),
}

pub type RequestOutcome = Result<PlannedRequest<Seq<char>>, RequestFault<Seq<char>>>;

pub open spec fn request_view(r: Result<PlannedRequest, RequestFault>) -> RequestOutcome {
    match r {
        Ok(q) => Ok(
            PlannedRequest {
                method: q.method,
                address: q.address@,
                header: match q.header {
                    Some((name, value)) => Some((name@, value@)),
                    None => None,
                },
            },
        ),
        Err(RequestFault::Rejected(t)) => Err(RequestFault::Rejected(t@)),
        Err(RequestFault::Address(e)) => Err(RequestFault::Address(e)),
    }
}

/// A request to a route below a base, with the key to the server in its header. One that may do
/// more than read is rejected, whatever the base.
pub open spec fn request_for(
    base: Seq<char>,
    method: RequestMethod,
    segments: Seq<Seq<char>>,
    key: Option<Seq<char>>,
) -> RequestOutcome {
    if !allowed(method, segments) {
        Err(RequestFault::Rejected(route_text(segments)))
    } else {
        match route_below(base, segments) {
            Ok(address) => Ok(
                PlannedRequest {
                    method,
                    address,
                    header: match key {
                        Some(k) => Some(("X-Api-Key"@, k)),
                        None => None,
                    },
                },
            ),
            Err(e) => Err(RequestFault::Address(e)),
        }
    }
}

/// Plans a request to a route below a base.
pub fn plan_request(
    base: &str,
    method: RequestMethod,
    segments: &Vec<String>,
    key: &Option<String>,
) -> (r: Result<PlannedRequest, RequestFault>)
    ensures
        request_view(r) == request_for(base@, method, texts(segments@), viewed(*key)),
{
    if !is_allowed(method, segments) {
        return Err(RequestFault::Rejected(route(segments)));
    }
    match route_address(base, segments) {
        Ok(address) => Ok(
            PlannedRequest {
                method,
                address,
                header: match key {
                    Some(k) => Some(("X-Api-Key".to_owned(), k.clone())),
                    None => None,
                },
            },
        ),
        Err(e) => Err(RequestFault::Address(e)),
    }
}

/// An address without the name and the password of its user and without its query.
pub open spec fn without_secrets(address: Seq<char>) -> Option<Seq<char>> {
    match parsed_address(address) {
        Some(a) => match with_username(a, Seq::empty()) {
            Some(b) => match with_password(b, None) {
                Some(c) => with_query(c, None),
                None => None,
            },
            None => None,
        },
        None => None,
    }
}

fn drop_secrets(address: &str) -> (r: Option<String>)
    ensures
        viewed(r) == without_secrets(address@),
{
    proof {
        reveal_strlit("");
        assert(""@ == Seq::<char>::empty());
    }
    let a: String = parse_address(address)?;
    let b: String = set_username(a.as_str(), "")?;
    let c: String = set_password(b.as_str(), None)?;
    set_query(c.as_str(), None)
}

/// An address as it may be shown; one that cannot be read is shown as it is.
pub open spec fn shown_address(address: Seq<char>, cleared: Option<Seq<char>>) -> Seq<char> {
    match cleared {
        Some(t) => t,
        None => address,
    }
}

/// An address as it may be shown, from what could be made of it.
pub fn shown(address: &str, cleared: Option<String>) -> (r: String)
    ensures
        r@ == shown_address(address@, viewed(cleared)),
{
    match cleared {
        Some(t) => t,
        None => address.to_owned(),
    }
}

/// An address as it may be shown: without the name and the password of its user and without its
/// query.
pub fn redact_url(source_url: &str) -> (r: String)
    ensures
        r@ == shown_address(source_url@, without_secrets(source_url@)),
{
    shown(source_url, drop_secrets(source_url))
}

} // verus!
