//! The key expressions under which bridges expose themselves and find each other.
use vstd::prelude::*;

use crate::key_expr::{fits, joined_text, lemma_plain, literal, plain_from, slashed, KeyExpr};
use crate::text::{chars_of, find, first_index, occurs, occurs_at, skip, starts_with, take};

verus! {

/// The space under which bridges expose themselves.
pub const KE_PREFIX_ADMIN_SPACE: &'static str = "@/service";

/// The space under which bridges forward their discovery, and are asked for what they cache.
pub const KE_PREFIX_SHARED_SPACE: &'static str = "@";

/// The part of a bridge's admin space that tells of DDS.
pub const KE_PREFIX_DDS: &'static str = "dds";

/// Where the routes from zenoh to DDS stand in the admin space.
pub const KE_PREFIX_ROUTE_TO_DDS: &'static str = "route/to_dds";

/// Where the routes from DDS to zenoh stand in the admin space.
pub const KE_PREFIX_ROUTE_FROM_DDS: &'static str = "route/from_dds";

/// Where publication caches answer queries.
pub const KE_PREFIX_PUB_CACHE: &'static str = "@dds_pub_cache";

/// Where discovery is forwarded.
pub const KE_PREFIX_FWD_DISCO: &'static str = "@dds_fwd_disco";

/// Where bridges declare that they live.
pub const KE_PREFIX_LIVELINESS_GROUP: &'static str = "zenoh-plugin-dds";

pub fn ke_admin_space() -> (key: KeyExpr)
    ensures
        key@ == KE_PREFIX_ADMIN_SPACE@,
        literal(key@),
{
    proof {
        reveal_strlit("@/service");
        reveal_with_fuel(plain_from, 12);
        lemma_plain("@/service"@);
    }
    KeyExpr::known(KE_PREFIX_ADMIN_SPACE)
}

pub fn ke_shared_space() -> (key: KeyExpr)
    ensures
        key@ == KE_PREFIX_SHARED_SPACE@,
        literal(key@),
{
    proof {
        reveal_strlit("@");
        reveal_with_fuel(plain_from, 3);
        lemma_plain("@"@);
    }
    KeyExpr::known(KE_PREFIX_SHARED_SPACE)
}

pub fn ke_dds() -> (key: KeyExpr)
    ensures
        key@ == KE_PREFIX_DDS@,
        literal(key@),
{
    proof {
        reveal_strlit("dds");
        reveal_with_fuel(plain_from, 12);
        lemma_plain("dds"@);
    }
    KeyExpr::known(KE_PREFIX_DDS)
}

pub fn ke_route_to_dds() -> (key: KeyExpr)
    ensures
        key@ == KE_PREFIX_ROUTE_TO_DDS@,
        literal(key@),
{
    proof {
        reveal_strlit("route/to_dds");
        reveal_with_fuel(plain_from, 16);
        lemma_plain("route/to_dds"@);
    }
    KeyExpr::known(KE_PREFIX_ROUTE_TO_DDS)
}

pub fn ke_route_from_dds() -> (key: KeyExpr)
    ensures
        key@ == KE_PREFIX_ROUTE_FROM_DDS@,
        literal(key@),
{
    proof {
        reveal_strlit("route/from_dds");
        reveal_with_fuel(plain_from, 16);
        lemma_plain("route/from_dds"@);
    }
    KeyExpr::known(KE_PREFIX_ROUTE_FROM_DDS)
}

pub fn ke_pub_cache() -> (key: KeyExpr)
    ensures
        key@ == KE_PREFIX_PUB_CACHE@,
        literal(key@),
{
    proof {
        reveal_strlit("@dds_pub_cache");
        reveal_with_fuel(plain_from, 16);
        lemma_plain("@dds_pub_cache"@);
    }
    KeyExpr::known(KE_PREFIX_PUB_CACHE)
}

pub fn ke_fwd_disco() -> (key: KeyExpr)
    ensures
        key@ == KE_PREFIX_FWD_DISCO@,
        literal(key@),
{
    proof {
        reveal_strlit("@dds_fwd_disco");
        reveal_with_fuel(plain_from, 16);
        lemma_plain("@dds_fwd_disco"@);
    }
    KeyExpr::known(KE_PREFIX_FWD_DISCO)
}

pub fn ke_liveliness_group() -> (key: KeyExpr)
    ensures
        key@ == KE_PREFIX_LIVELINESS_GROUP@,
        literal(key@),
{
    proof {
        reveal_strlit("zenoh-plugin-dds");
        reveal_with_fuel(plain_from, 18);
        lemma_plain("zenoh-plugin-dds"@);
    }
    KeyExpr::known(KE_PREFIX_LIVELINESS_GROUP)
}

/// The key expression of any one chunk.
pub fn ke_any_1_segment() -> (key: KeyExpr)
    ensures
        key@ == "*"@,
{
    proof {
        reveal_strlit("*");
        assert(fits("*"@, 0));
    }
    KeyExpr::known("*")
}

/// The key expression of any chunks.
pub fn ke_any_n_segment() -> (key: KeyExpr)
    ensures
        key@ == "**"@,
{
    proof {
        reveal_strlit("**");
        assert(fits("**"@, 0));
        assert(fits("**"@, 1));
    }
    KeyExpr::known("**")
}

/// What a forwarded discovery message tells of.
#[derive(Clone, Copy, Debug, PartialEq, Eq, Structural)]
pub enum FwdKind {
    /// A DDS writer.
    Writer,
    /// A DDS reader.
    Reader,
    /// The ROS nodes of a participant.
    RosDisco,
}

impl FwdKind {
    /// The chunk that stands for the kind in a key.
    pub open spec fn chunk(self) -> Seq<char> {
        match self {
            FwdKind::Writer => "writer"@,
            FwdKind::Reader => "reader"@,
            FwdKind::RosDisco => "ros_disco"@,
        }
    }

    /// That chunk inside a key.
    pub open spec fn mark(self) -> Seq<char> {
        match self {
            FwdKind::Writer => "/writer/"@,
            FwdKind::Reader => "/reader/"@,
            FwdKind::RosDisco => "/ros_disco/"@,
        }
    }

    /// The key expression of that chunk.
    pub fn to_key_expr(&self) -> (key: KeyExpr)
        ensures
            key@ == self.chunk(),
            literal(key@),
    {
        proof {
            reveal_strlit("writer");
            reveal_strlit("reader");
            reveal_strlit("ros_disco");
            reveal_with_fuel(plain_from, 12);
            lemma_plain("writer"@);
            lemma_plain("reader"@);
            lemma_plain("ros_disco"@);
        }
        match self {
            FwdKind::Writer => KeyExpr::known("writer"),
            FwdKind::Reader => KeyExpr::known("reader"),
            FwdKind::RosDisco => KeyExpr::known("ros_disco"),
        }
    }
}

/// `<admin space>/<uuid>/dds`
pub open spec fn admin_prefix_text(uuid: Seq<char>) -> Seq<char> {
    slashed(slashed(KE_PREFIX_ADMIN_SPACE@, uuid), KE_PREFIX_DDS@)
}

/// `<shared space>/<uuid>/@dds_fwd_disco[/<scope>]`
pub open spec fn fwd_prefix_text(uuid: Seq<char>, scope: Option<Seq<char>>) -> Seq<char> {
    slashed(slashed(KE_PREFIX_SHARED_SPACE@, uuid), fwd_head(scope))
}

/// `@dds_fwd_disco[/<scope>]`
pub open spec fn fwd_head(scope: Option<Seq<char>>) -> Seq<char> {
    match scope {
        Some(s) => slashed(KE_PREFIX_FWD_DISCO@, s),
        None => KE_PREFIX_FWD_DISCO@,
    }
}

/// `<shared space>/<uuid>/@dds_pub_cache/<route>`
pub open spec fn pub_cache_text(uuid: Seq<char>, route: Seq<char>) -> Seq<char> {
    slashed(slashed(slashed(KE_PREFIX_SHARED_SPACE@, uuid), KE_PREFIX_PUB_CACHE@), route)
}

/// The prefix of a bridge's admin space: `<admin space>/<uuid>/dds`.
pub fn admin_keyexpr_prefix(uuid: &KeyExpr) -> (key: KeyExpr)
    ensures
        key@ == admin_prefix_text(uuid@),
        literal(uuid@) ==> literal(key@),
{
    proof {
        reveal_strlit("dds");
    }
    ke_admin_space().slash(uuid).slash(&ke_dds())
}

/// The key expression on which a bridge answers queries: `<admin space>/<uuid>/dds/**`.
pub fn admin_queryable_keyexpr(uuid: &KeyExpr) -> (key: KeyExpr)
    ensures
        key@ == slashed(admin_prefix_text(uuid@), "**"@),
{
    proof {
        reveal_strlit("dds");
    }
    admin_keyexpr_prefix(uuid).slash(&ke_any_n_segment())
}

/// The prefix under which a bridge forwards its discovery: `<shared space>/<uuid>/@dds_fwd_disco[/<scope>]`.
pub fn fwd_key_prefix(uuid: &KeyExpr, scope: &Option<KeyExpr>) -> (key: KeyExpr)
    ensures
        key@ == fwd_prefix_text(uuid@, crate::key_expr::optional_key(*scope)),
        literal(uuid@) && (scope matches Some(s) ==> literal(s@)) ==> literal(key@),
{
    proof {
        reveal_strlit("@dds_fwd_disco");
    }
    let base: KeyExpr = ke_shared_space().slash(uuid).slash(&ke_fwd_disco());
    match scope {
        Some(s) => {
            let key: KeyExpr = base.slash(s);
            assert(slashed(slashed(slashed(KE_PREFIX_SHARED_SPACE@, uuid@), KE_PREFIX_FWD_DISCO@), s@) =~= slashed(
                slashed(KE_PREFIX_SHARED_SPACE@, uuid@),
                slashed(KE_PREFIX_FWD_DISCO@, s@),
            ));
            key
        },
        None => base,
    }
}

/// The key on which the discovery of `rest` is forwarded: `<prefix>/<kind>/<rest>`.
pub fn fwd_discovery_keyexpr(prefix: &KeyExpr, kind: FwdKind, rest: &KeyExpr) -> (key: KeyExpr)
    ensures
        key@ == slashed(slashed(prefix@, kind.chunk()), rest@),
{
    proof {
        reveal_strlit("writer");
        reveal_strlit("reader");
        reveal_strlit("ros_disco");
    }
    prefix.slash(&kind.to_key_expr()).slash(rest)
}

/// What a bridge caches for those that come late: `<prefix>/**`.
pub fn fwd_cache_keyexpr(prefix: &KeyExpr) -> (key: KeyExpr)
    ensures
        key@ == joined_text(prefix@, "**"@),
        prefix@.last() != '*' ==> key@ == slashed(prefix@, "**"@),
{
    prefix.slash(&ke_any_n_segment())
}

/// The discovery that bridge `uuid` has forwarded: `<shared space>/<uuid>/@dds_fwd_disco[/<scope>]/**`.
/// With `*` for `uuid`, that of any bridge.
pub fn fwd_discovery_selector(uuid: &KeyExpr, scope: &Option<KeyExpr>) -> (key: KeyExpr)
    ensures
        key@ == joined_text(fwd_prefix_text(uuid@, crate::key_expr::optional_key(*scope)), "**"@),
        (scope matches Some(s) ==> s@.last() != '*') ==> key@ == slashed(
            fwd_prefix_text(uuid@, crate::key_expr::optional_key(*scope)),
            "**"@,
        ),
{
    proof {
        reveal_strlit("@dds_fwd_disco");
    }
    let prefix: KeyExpr = fwd_key_prefix(uuid, scope);
    if let Some(s) = scope {
        // a scope is not empty
        let _text: &str = s.as_str();
        assert(prefix@.last() == s@.last());
    }
    prefix.slash(&ke_any_n_segment())
}

/// The publications that bridge `uuid` caches for a route: `<shared space>/<uuid>/@dds_pub_cache/<route>`.
pub fn pub_cache_selector(uuid: &KeyExpr, route: &KeyExpr) -> (key: KeyExpr)
    ensures
        key@ == pub_cache_text(uuid@, route@),
{
    proof {
        reveal_strlit("@dds_pub_cache");
    }
    ke_shared_space().slash(uuid).slash(&ke_pub_cache()).slash(route)
}

/// Behind which key a bridge answers for the publications that it caches: `@dds_pub_cache/<member>`.
pub fn pub_cache_keyexpr(member: &KeyExpr) -> (key: KeyExpr)
    ensures
        key@ == slashed(KE_PREFIX_PUB_CACHE@, member@),
{
    ke_pub_cache().slash(member)
}

/// The publications that any bridge caches for a route: `<route>/@dds_pub_cache/*`.
pub fn historical_data_selector(route: &KeyExpr) -> (key: KeyExpr)
    ensures
        key@ == slashed(slashed(route@, KE_PREFIX_PUB_CACHE@), "*"@),
{
    proof {
        reveal_strlit("@dds_pub_cache");
    }
    route.slash(&ke_pub_cache()).slash(&ke_any_1_segment())
}

/// The key expression by which bridge `uuid` shows that it lives.
pub fn member_keyexpr(uuid: &KeyExpr) -> (key: KeyExpr)
    ensures
        key@ == slashed(KE_PREFIX_LIVELINESS_GROUP@, uuid@),
{
    ke_liveliness_group().slash(uuid)
}

/// The key expression of all bridges that live.
pub fn group_keyexpr() -> (key: KeyExpr)
    ensures
        key@ == slashed(KE_PREFIX_LIVELINESS_GROUP@, "**"@),
{
    ke_liveliness_group().slash(&ke_any_n_segment())
}

/// The admin key of an entity of another bridge: `<admin space>/<uuid>/dds/<rest>`.
pub fn full_admin_keyexpr(uuid: &KeyExpr, rest: &KeyExpr) -> (key: KeyExpr)
    ensures
        key@ == slashed(admin_prefix_text(uuid@), rest@),
{
    proof {
        reveal_strlit("dds");
    }
    admin_keyexpr_prefix(uuid).slash(rest)
}

/// What stands in `text` behind the last `/`.
pub open spec fn last_chunk(text: Seq<char>) -> Seq<char>
    decreases text.len(),
{
    if text.len() == 0 || text.last() == '/' {
        seq![]
    } else {
        last_chunk(text.drop_last()).push(text.last())
    }
}

proof fn lemma_last_chunk(text: Seq<char>, at: int)
    requires
        0 <= at <= text.len(),
        at > 0 ==> text[at - 1] == '/',
        forall|i: int| at <= i < text.len() ==> text[i] != '/',
    ensures
        last_chunk(text) == text.skip(at),
    decreases text.len(),
{
    if at < text.len() {
        lemma_last_chunk(text.drop_last(), at);
        assert(text.drop_last().skip(at).push(text.last()) =~= text.skip(at));
    } else {
        assert(text.skip(at) =~= seq![]);
    }
}

/// The id of the bridge that a liveliness token is about: what stands behind the last `/`.
pub fn zenoh_id(token: &KeyExpr) -> (id: String)
    ensures
        id@ == last_chunk(token@),
{
    let text: &str = token.as_str();
    let chars: Vec<char> = chars_of(text);
    let mut at: usize = chars.len();
    while at > 0 && chars[at - 1] != '/'
        invariant
            chars@ == token@,
            at <= chars@.len(),
            forall|i: int| at <= i < chars@.len() ==> chars@[i] != '/',
        decreases at,
    {
        at -= 1;
    }
    proof {
        lemma_last_chunk(token@, at as int);
    }
    skip(text, at)
}

/// What a key `<shared space>/<uuid>/@dds_fwd_disco[/<scope>]/<kind>/<rest>` of a forwarded discovery message
/// tells: the bridge it comes from, what it is about, and the rest of the key.
pub open spec fn fwd_key_parts(key: Seq<char>) -> Option<(Seq<char>, FwdKind, Seq<char>)> {
    let space = KE_PREFIX_SHARED_SPACE@.push('/');
    if !space.is_prefix_of(key) {
        None
    } else {
        let tail = key.skip(space.len() as int);
        match first_index(tail, "/"@) {
            None => None,
            Some(i) => {
                match fwd_tail_parts(tail.skip(i + 1)) {
                    None => None,
                    Some((kind, rest)) => Some((tail.take(i), kind, rest)),
                }
            },
        }
    }
}

/// Whether there is a first place, and it is before the other one, where there is one.
pub open spec fn comes_first(place: Option<int>, other: Option<int>) -> bool {
    place matches Some(i) && (other matches Some(j) ==> i < j)
}

/// What stands behind the bridge in a key of a forwarded discovery message: the kind is the first of the chunks
/// that name one, and the rest is what follows it.
pub open spec fn fwd_tail_parts(tail: Seq<char>) -> Option<(FwdKind, Seq<char>)> {
    let reader = first_index(tail, FwdKind::Reader.mark());
    let writer = first_index(tail, FwdKind::Writer.mark());
    let ros_disco = first_index(tail, FwdKind::RosDisco.mark());
    if !KE_PREFIX_FWD_DISCO@.is_prefix_of(tail) {
        None
    } else if comes_first(reader, writer) && comes_first(reader, ros_disco) {
        Some((FwdKind::Reader, tail.skip(reader->Some_0 + FwdKind::Reader.mark().len())))
    } else if comes_first(writer, reader) && comes_first(writer, ros_disco) {
        Some((FwdKind::Writer, tail.skip(writer->Some_0 + FwdKind::Writer.mark().len())))
    } else if comes_first(ros_disco, reader) && comes_first(ros_disco, writer) {
        Some((FwdKind::RosDisco, tail.skip(ros_disco->Some_0 + FwdKind::RosDisco.mark().len())))
    } else {
        None
    }
}

fn is_first(place: Option<usize>, other: Option<usize>) -> (b: bool)
    ensures
        b == comes_first(
            match place {
                Some(i) => Some(i as int),
                None => None,
            },
            match other {
                Some(j) => Some(j as int),
                None => None,
            },
        ),
{
    match (place, other) {
        (Some(i), Some(j)) => i < j,
        (Some(_), None) => true,
        (None, _) => false,
    }
}

fn parse_fwd_tail(tail: &str) -> (parts: Option<(FwdKind, String)>)
    ensures
        match parts {
            Some((kind, rest)) => fwd_tail_parts(tail@) == Some((kind, rest@)),
            None => fwd_tail_parts(tail@) is None,
        },
{
    proof {
        reveal_strlit("/reader/");
        reveal_strlit("/writer/");
        reveal_strlit("/ros_disco/");
    }
    if !starts_with(tail, KE_PREFIX_FWD_DISCO) {
        // a publication on another key that matches: not for us
        return None;
    }
    let reader: Option<usize> = find(tail, "/reader/");
    let writer: Option<usize> = find(tail, "/writer/");
    let ros_disco: Option<usize> = find(tail, "/ros_disco/");
    if let Some(i) = reader {
        if is_first(reader, writer) && is_first(reader, ros_disco) {
            return Some((FwdKind::Reader, skip(tail, i + 8)));
        }
    }
    if let Some(i) = writer {
        if is_first(writer, reader) && is_first(writer, ros_disco) {
            return Some((FwdKind::Writer, skip(tail, i + 8)));
        }
    }
    if let Some(i) = ros_disco {
        if is_first(ros_disco, reader) && is_first(ros_disco, writer) {
            return Some((FwdKind::RosDisco, skip(tail, i + 11)));
        }
    }
    None
}

/// Takes apart the key of a forwarded discovery message:
/// `<shared space>/<uuid>/@dds_fwd_disco[/<scope>]/<kind>/<rest>`.
pub fn parse_fwd_discovery_keyexpr(fwd_ke: &KeyExpr) -> (parts: Option<(String, FwdKind, String)>)
    ensures
        match parts {
            Some((uuid, kind, rest)) => fwd_key_parts(fwd_ke@) == Some((uuid@, kind, rest@)),
            None => fwd_key_parts(fwd_ke@) is None,
        },
{
    proof {
        reveal_strlit("/");
        reveal_strlit("@");
        reveal_strlit("@/");
        assert("@/"@ =~= KE_PREFIX_SHARED_SPACE@.push('/'));
    }
    let text: &str = fwd_ke.as_str();
    if !starts_with(text, "@/") {
        // a publication on another key that matches: not for us
        return None;
    }
    let tail: String = skip(text, 2);
    match find(tail.as_str(), "/") {
        None => None,
        Some(i) => {
            let rest: String = skip(tail.as_str(), i + 1);
            match parse_fwd_tail(rest.as_str()) {
                None => None,
                Some((kind, remaining)) => Some((take(tail.as_str(), i), kind, remaining)),
            }
        },
    }
}

/// `word` as a chunk of its own inside a key.
spec fn between_slashes(word: Seq<char>) -> Seq<char> {
    seq!['/'] + word + seq!['/']
}

/// Where a chunk stands in `head/word/rest`: it stands in `head`, is `word`, or stands in `rest`.
proof fn lemma_chunk_place(head: Seq<char>, word: Seq<char>, rest: Seq<char>, chunk: Seq<char>, at: int)
    requires
        forall|i: int| 0 <= i < word.len() ==> word[i] != '/',
        forall|i: int| 0 <= i < chunk.len() ==> chunk[i] != '/',
        occurs_at(slashed(slashed(head, word), rest), between_slashes(chunk), at),
    ensures
        at < head.len() ==> occurs_at(head.push('/'), between_slashes(chunk), at),
        at == head.len() ==> chunk == word,
        at > head.len() ==> occurs_at(seq!['/'] + rest, between_slashes(chunk), at - head.len() - 1 - word.len()),
{
    let body = slashed(slashed(head, word), rest);
    let mark = between_slashes(chunk);
    let h = head.len() as int;
    let w = word.len() as int;
    let c = chunk.len() as int;
    assert(body.subrange(at, at + mark.len()) == mark);
    assert forall|j: int| 0 <= j < mark.len() implies #[trigger] mark[j] == body[at + j] by {
        assert(body.subrange(at, at + mark.len())[j] == body[at + j]);
    }
    assert(mark[0] == '/' && mark[c + 1] == '/');
    assert forall|j: int| 1 <= j <= c implies #[trigger] mark[j] != '/' by {
        assert(mark[j] == chunk[j - 1]);
    }
    assert(body[h] == '/');
    assert(body[h + 1 + w] == '/');
    assert forall|i: int| h < i < h + 1 + w implies #[trigger] body[i] != '/' by {
        assert(body[i] == word[i - h - 1]);
    }
    if at < h {
        // the second slash of the mark is at most the one behind `head`
        if at + c + 1 > h {
            assert(mark[h - at] == body[at + (h - at)]);
            assert(false);
        }
        assert(head.push('/').subrange(at, at + mark.len()) =~= mark) by {
            assert forall|j: int| 0 <= j < mark.len() implies head.push('/')[at + j] == mark[j] by {
                assert(mark[j] == body[at + j]);
            }
        }
    } else if at == h {
        if c < w {
            assert(mark[c + 1] == body[at + (c + 1)]);
            assert(false);
        }
        if c > w {
            assert(mark[w + 1] == body[at + (w + 1)]);
            assert(false);
        }
        assert(chunk =~= word) by {
            assert forall|i: int| 0 <= i < c implies chunk[i] == word[i] by {
                assert(mark[i + 1] == body[at + (i + 1)]);
                assert(mark[i + 1] == chunk[i]);
                assert(body[h + 1 + i] == word[i]);
            }
        }
    } else {
        assert(mark[0] == body[at + 0]);
        assert(at >= h + 1 + w);
        let tail = seq!['/'] + rest;
        let from = at - h - 1 - w;
        assert(tail.subrange(from, from + mark.len()) =~= mark) by {
            assert forall|j: int| 0 <= j < mark.len() implies tail[from + j] == mark[j] by {
                assert(mark[j] == body[at + j]);
            }
        }
    }
}

/// `chunk` stands in `head/word/rest` first as `word`, where it does not stand in `head`.
proof fn lemma_chunk_first(head: Seq<char>, word: Seq<char>, rest: Seq<char>)
    requires
        forall|i: int| 0 <= i < word.len() ==> word[i] != '/',
        !occurs(head.push('/'), between_slashes(word)),
    ensures
        first_index(slashed(slashed(head, word), rest), between_slashes(word)) == Some(head.len() as int),
{
    let body = slashed(slashed(head, word), rest);
    let mark = between_slashes(word);
    let h = head.len() as int;
    assert(body.subrange(h, h + mark.len()) =~= mark);
    assert(occurs_at(body, mark, h));
    assert forall|earlier: int| earlier < h implies !occurs_at(body, mark, earlier) by {
        if occurs_at(body, mark, earlier) {
            lemma_chunk_place(head, word, rest, word, earlier);
        }
    }
    crate::text::lemma_first_index(body, mark, h);
}

/// Another chunk stands in `head/word/rest` behind `word` only, where it does not stand in `head`.
proof fn lemma_chunk_later(head: Seq<char>, word: Seq<char>, rest: Seq<char>, chunk: Seq<char>)
    requires
        forall|i: int| 0 <= i < word.len() ==> word[i] != '/',
        forall|i: int| 0 <= i < chunk.len() ==> chunk[i] != '/',
        chunk != word,
        !occurs(head.push('/'), between_slashes(chunk)),
    ensures
        first_index(slashed(slashed(head, word), rest), between_slashes(chunk)) matches Some(at) ==> at > head.len(),
{
    let body = slashed(slashed(head, word), rest);
    let mark = between_slashes(chunk);
    crate::text::lemma_index_occurs(body, mark);
    if let Some(at) = first_index(body, mark) {
        lemma_chunk_place(head, word, rest, chunk, at);
    }
}

/// The marks of the kinds are their chunks.
proof fn lemma_marks()
    ensures
        forall|kind: FwdKind| #[trigger] kind.mark() == between_slashes(kind.chunk()),
        forall|kind: FwdKind, i: int| 0 <= i < kind.chunk().len() ==> #[trigger] kind.chunk()[i] != '/',
        forall|kind: FwdKind, other: FwdKind|
            kind != other ==> #[trigger] kind.chunk() != #[trigger] other.chunk(),
{
    reveal_strlit("reader");
    reveal_strlit("writer");
    reveal_strlit("ros_disco");
    reveal_strlit("/reader/");
    reveal_strlit("/writer/");
    reveal_strlit("/ros_disco/");
    assert("/reader/"@ =~= between_slashes("reader"@));
    assert("/writer/"@ =~= between_slashes("writer"@));
    assert("/ros_disco/"@ =~= between_slashes("ros_disco"@));
    assert("reader"@[0] != "writer"@[0]);
    assert("reader"@.len() != "ros_disco"@.len());
    assert("writer"@.len() != "ros_disco"@.len());
}

/// What stands behind the bridge is taken apart into what it was made of.
proof fn lemma_tail_round_trip(scope: Option<Seq<char>>, kind: FwdKind, rest: Seq<char>)
    requires
        scope_names_no_kind(scope),
    ensures
        fwd_tail_parts(slashed(slashed(fwd_head(scope), kind.chunk()), rest)) == Some((kind, rest)),
{
    let head = fwd_head(scope);
    let body = slashed(slashed(head, kind.chunk()), rest);
    lemma_marks();
    assert(KE_PREFIX_FWD_DISCO@.is_prefix_of(body));
    assert(!occurs(head.push('/'), kind.mark()));
    lemma_chunk_first(head, kind.chunk(), rest);
    assert forall|other: FwdKind| other != kind implies comes_first(
        first_index(body, kind.mark()),
        first_index(body, #[trigger] other.mark()),
    ) by {
        assert(!occurs(head.push('/'), other.mark()));
        lemma_chunk_later(head, kind.chunk(), rest, other.chunk());
    }
    assert(body.skip(head.len() as int + kind.mark().len()) =~= rest);
}

/// Whether a scope holds no chunk that names a kind.
pub open spec fn scope_names_no_kind(scope: Option<Seq<char>>) -> bool {
    forall|kind: FwdKind| !occurs(fwd_head(scope).push('/'), #[trigger] kind.mark())
}

/// The key of a forwarded discovery message is taken apart into what it was made of, whatever the rest is,
/// where the scope holds no chunk that names a kind.
pub proof fn law_fwd_key_round_trip(uuid: Seq<char>, scope: Option<Seq<char>>, kind: FwdKind, rest: Seq<char>)
    requires
        forall|i: int| 0 <= i < uuid.len() ==> uuid[i] != '/',
        scope_names_no_kind(scope),
    ensures
        fwd_key_parts(slashed(slashed(fwd_prefix_text(uuid, scope), kind.chunk()), rest)) == Some(
            (uuid, kind, rest),
        ),
{
    reveal_strlit("/");
    let space = KE_PREFIX_SHARED_SPACE@.push('/');
    let body = slashed(slashed(fwd_head(scope), kind.chunk()), rest);
    let key = slashed(slashed(fwd_prefix_text(uuid, scope), kind.chunk()), rest);
    assert(key =~= space + slashed(uuid, body));
    assert(space.is_prefix_of(key));
    let tail = key.skip(space.len() as int);
    assert(tail =~= slashed(uuid, body));
    let u = uuid.len() as int;
    assert(tail.subrange(u, u + 1) =~= "/"@);
    assert(occurs_at(tail, "/"@, u));
    assert forall|earlier: int| earlier < u implies !occurs_at(tail, "/"@, earlier) by {
        if occurs_at(tail, "/"@, earlier) {
            assert(tail.subrange(earlier, earlier + 1)[0] == tail[earlier]);
            assert(tail[earlier] == uuid[earlier]);
        }
    }
    crate::text::lemma_first_index(tail, "/"@, u);
    assert(tail.take(u) =~= uuid);
    assert(tail.skip(u + 1) =~= body);
    lemma_tail_round_trip(scope, kind, rest);
}

} // verus!
