//! The aggregated-statistics service, read patch by patch: the addresses of
//! its requests, the count that a reply states, and the list of the patches
//! that it has statistics for.
//!
//! The list of patches is asked of a stored procedure first. Where that gives
//! no patches, the patches are read from the statistics themselves.

use vstd::prelude::*;
use crate::decimal::{parse_integer, written_integer};
use crate::lexical::{lemma_text_lt_total, text_lt, TextKey};
use crate::order::{lemma_permutation_reaches, sorted_order_by, sorts_by, SortKey};
use crate::text::{add_distinct, chars_of, distinct, lemma_distinct, string_of};

verus! {

/// One item of a reply that is a list, as far as the list of patches needs
/// it.
#[derive(Debug, PartialEq, Eq)]
pub enum JsonItem {
    /// A text.
    Text { text: String },
    /// An object, with the text of its `patch_version` member if it has one.
    Object { patch_version: Option<String> },
    /// Anything else.
    Other,
}

/// The view of a [`JsonItem`].
pub enum JsonItemView {
    Text { text: Seq<char> },
    Object { patch_version: Option<Seq<char>> },
    Other,
}

impl View for JsonItem {
    type V = JsonItemView;

    open spec fn view(&self) -> JsonItemView {
        match *self {
            JsonItem::Text { text } => JsonItemView::Text { text: text@ },
            JsonItem::Object { patch_version } => JsonItemView::Object {
                patch_version: match patch_version {
                    Some(v) => Some(v@),
                    None => None,
                },
            },
            JsonItem::Other => JsonItemView::Other,
        }
    }
}

impl DeepView for JsonItem {
    type V = JsonItemView;

    open spec fn deep_view(&self) -> JsonItemView {
        self@
    }
}

/// The patch that an item of the procedure's reply names: a text names
/// itself, an object the text of its `patch_version` member.
pub open spec fn named_patch(item: JsonItemView) -> Option<Seq<char>> {
    match item {
        JsonItemView::Text { text } => Some(text),
        JsonItemView::Object { patch_version } => patch_version,
        JsonItemView::Other => None,
    }
}

/// The patch that an item of the statistics names: the text of the
/// `patch_version` member of an object.
pub open spec fn member_patch(item: JsonItemView) -> Option<Seq<char>> {
    match item {
        JsonItemView::Object { patch_version } => patch_version,
        _ => None,
    }
}

/// The patches that the items of the procedure's reply name, in their order.
pub open spec fn named_patches(items: Seq<JsonItemView>) -> Seq<Seq<char>>
    decreases items.len(),
{
    if items.len() == 0 {
        Seq::empty()
    } else {
        let before = named_patches(items.drop_last());
        match named_patch(items.last()) {
            Some(p) => before.push(p),
            None => before,
        }
    }
}

/// The patches that the items of the statistics name, in their order.
pub open spec fn member_patches(items: Seq<JsonItemView>) -> Seq<Seq<char>>
    decreases items.len(),
{
    if items.len() == 0 {
        Seq::empty()
    } else {
        let before = member_patches(items.drop_last());
        match member_patch(items.last()) {
            Some(p) => before.push(p),
            None => before,
        }
    }
}

/// What the stored procedure answered.
#[derive(Debug, PartialEq, Eq)]
pub enum RpcReply {
    /// The request did not get through.
    Unreachable,
    /// A reply with a status that is no success.
    Failed { status: u16 },
    /// A successful reply whose body is no list.
    NoList,
    /// A successful reply with a list.
    List { items: Vec<JsonItem> },
}

/// The view of an [`RpcReply`].
pub enum RpcReplyView {
    Unreachable,
    Failed { status: u16 },
    NoList,
    List { items: Seq<JsonItemView> },
}

impl View for RpcReply {
    type V = RpcReplyView;

    open spec fn view(&self) -> RpcReplyView {
        match *self {
            RpcReply::Unreachable => RpcReplyView::Unreachable,
            RpcReply::Failed { status } => RpcReplyView::Failed { status },
            RpcReply::NoList => RpcReplyView::NoList,
            RpcReply::List { items } => RpcReplyView::List { items: items.deep_view() },
        }
    }
}

/// What follows the answer of the stored procedure.
#[derive(Debug, PartialEq, Eq)]
pub enum RpcOutcome {
    /// The patches are known.
    Patches { patches: Vec<String> },
    /// The patches have to be read from the statistics. `rpc_missing` says
    /// that the service does not have the procedure.
    Fallback { rpc_missing: bool },
}

/// The view of an [`RpcOutcome`].
pub enum RpcOutcomeView {
    Patches { patches: Seq<Seq<char>> },
    Fallback { rpc_missing: bool },
}

impl View for RpcOutcome {
    type V = RpcOutcomeView;

    open spec fn view(&self) -> RpcOutcomeView {
        match *self {
            RpcOutcome::Patches { patches } => RpcOutcomeView::Patches {
                patches: patches.deep_view(),
            },
            RpcOutcome::Fallback { rpc_missing } => RpcOutcomeView::Fallback { rpc_missing },
        }
    }
}

/// The status of a reply that says that what was asked for is not there.
pub const NOT_FOUND: u16 = 404;

/// What follows the answer of the stored procedure: its patches where it
/// names any, else the fallback, which is told whether the procedure is
/// missing.
pub open spec fn rpc_outcome(reply: RpcReplyView) -> RpcOutcomeView {
    match reply {
        RpcReplyView::List { items } => {
            if named_patches(items).len() > 0 {
                RpcOutcomeView::Patches { patches: named_patches(items) }
            } else {
                RpcOutcomeView::Fallback { rpc_missing: false }
            }
        },
        RpcReplyView::Failed { status } => RpcOutcomeView::Fallback {
            rpc_missing: status == NOT_FOUND,
        },
        _ => RpcOutcomeView::Fallback { rpc_missing: false },
    }
}

/// `patches` is the list of the patches that the statistics name: each of
/// them once, the last in the order of texts first.
pub open spec fn is_patch_list(patches: Seq<Seq<char>>, items: Seq<JsonItemView>) -> bool {
    &&& forall|p: Seq<char>| patches.contains(p) <==> member_patches(items).contains(p)
    &&& forall|i: int, j: int|
        0 <= i < j < patches.len() ==> text_lt(#[trigger] patches[j], #[trigger] patches[i])
}

/// The message of the failure of the fallback where the procedure is missing
/// and the statistics name no patch.
pub const NOTHING_FOUND: &'static str =
    "RPC 'get_stats_patches' отсутствует и fallback не вернул данных. Добавьте RPC или заполните champion_stats_aggregated.";

/// What a failed request is reported as: the status and the body of the
/// reply, after a hint where the procedure is missing.
pub open spec fn request_failure(rpc_missing: bool, status: Seq<char>, body: Seq<char>) -> Seq<char> {
    (if rpc_missing {
        "RPC missing; fallback also failed. "@
    } else {
        Seq::empty()
    }) + "Supabase request failed ("@ + status + "): "@ + body
}

/// The piece of a text behind its last stroke, and the whole text where it
/// has no stroke.
pub open spec fn last_piece(s: Seq<char>) -> Seq<char>
    decreases s.len(),
{
    if s.len() == 0 {
        s
    } else if s.last() == '/' {
        Seq::empty()
    } else {
        last_piece(s.drop_last()).push(s.last())
    }
}

/// The count that a reply states: the number behind the last stroke of its
/// range header. A reply that is no success, has no such header or states no
/// number counts as zero.
pub open spec fn stated_count(success: bool, content_range: Option<Seq<char>>) -> int {
    match content_range {
        Some(header) if success => match written_integer(
            last_piece(header),
            i64::MIN as int,
            i64::MAX as int,
        ) {
            Some(count) => count,
            None => 0,
        },
        _ => 0,
    }
}

/// The client of the statistics service, for what it computes.
pub struct SupabaseClient;

impl SupabaseClient {
    /// The address that counts the matches of a patch.
    pub fn matches_count_url(base_url: &str, patch: &str) -> (r: String)
        ensures
            r@ == base_url@ + "/rest/v1/match_participants_stats?patch_version=eq."@ + patch@
                + "&select=id"@,
    {
        let mut url = String::new();
        url.append(base_url);
        url.append("/rest/v1/match_participants_stats?patch_version=eq.");
        url.append(patch);
        url.append("&select=id");
        assert(url@ =~= base_url@ + "/rest/v1/match_participants_stats?patch_version=eq."@
            + patch@ + "&select=id"@);
        url
    }

    /// The address of the statistics of a patch, the highest win rate first.
    pub fn champion_stats_url(base_url: &str, patch: &str) -> (r: String)
        ensures
            r@ == base_url@ + "/rest/v1/champion_stats_aggregated?patch_version=eq."@ + patch@
                + "&select=*&order=win_rate.desc&limit=10000"@,
    {
        let mut url = String::new();
        url.append(base_url);
        url.append("/rest/v1/champion_stats_aggregated?patch_version=eq.");
        url.append(patch);
        url.append("&select=*&order=win_rate.desc&limit=10000");
        assert(url@ =~= base_url@ + "/rest/v1/champion_stats_aggregated?patch_version=eq."@
            + patch@ + "&select=*&order=win_rate.desc&limit=10000"@);
        url
    }

    /// The address of the stored procedure that lists the patches.
    pub fn patches_rpc_url(base_url: &str) -> (r: String)
        ensures
            r@ == base_url@ + "/rest/v1/rpc/get_stats_patches"@,
    {
        let mut url = String::new();
        url.append(base_url);
        url.append("/rest/v1/rpc/get_stats_patches");
        assert(url@ =~= base_url@ + "/rest/v1/rpc/get_stats_patches"@);
        url
    }

    /// The address that reads the patches from the statistics.
    pub fn patches_fallback_url(base_url: &str) -> (r: String)
        ensures
            r@ == base_url@
                + "/rest/v1/champion_stats_aggregated?select=patch_version&distinct=exact&order=patch_version.desc"@,
    {
        let mut url = String::new();
        url.append(base_url);
        url.append(
            "/rest/v1/champion_stats_aggregated?select=patch_version&distinct=exact&order=patch_version.desc",
        );
        assert(url@ =~= base_url@
            + "/rest/v1/champion_stats_aggregated?select=patch_version&distinct=exact&order=patch_version.desc"@);
        url
    }

    /// What a failed request is reported as.
    pub fn failure_message(rpc_missing: bool, status: &str, body: &str) -> (r: String)
        ensures
            r@ == request_failure(rpc_missing, status@, body@),
    {
        let mut text = String::new();
        if rpc_missing {
            text.append("RPC missing; fallback also failed. ");
        }
        text.append("Supabase request failed (");
        text.append(status);
        text.append("): ");
        text.append(body);
        assert(text@ =~= request_failure(rpc_missing, status@, body@));
        text
    }

    /// The count that a reply states.
    pub fn get_raw_matches_count(success: bool, content_range: Option<&str>) -> (r: i64)
        ensures
            r == stated_count(
                success,
                match content_range {
                    Some(h) => Some(h@),
                    None => None,
                },
            ),
    {
        match content_range {
            Some(header) if success => {
                let h = chars_of(header);
                let mut start: usize = h.len();
                proof {
                    assert(h@.take(h.len() as int) =~= h@);
                    assert(last_piece(h@) + h@.skip(h.len() as int) =~= last_piece(h@));
                }
                while start > 0 && h[start - 1] != '/'
                    invariant
                        start <= h.len(),
                        last_piece(h@) == last_piece(h@.take(start as int)) + h@.skip(
                            start as int,
                        ),
                    decreases start,
                {
                    proof {
                        let head = h@.take(start as int);
                        assert(head.last() == h[start - 1]);
                        assert(head.drop_last() =~= h@.take(start - 1));
                        assert(last_piece(h@.take(start - 1)).push(h[start - 1]) + h@.skip(
                            start as int,
                        ) =~= last_piece(h@.take(start - 1)) + h@.skip(start - 1));
                    }
                    start = start - 1;
                }
                proof {
                    let head = h@.take(start as int);
                    if start > 0 {
                        assert(head.last() == '/');
                    }
                    assert(last_piece(head) =~= Seq::<char>::empty());
                    assert(last_piece(h@) =~= h@.skip(start as int));
                }
                let mut piece: Vec<char> = Vec::new();
                let mut i: usize = start;
                while i < h.len()
                    invariant
                        start <= i <= h.len(),
                        piece@ == h@.subrange(start as int, i as int),
                    decreases h.len() - i,
                {
                    piece.push(h[i]);
                    assert(h@.subrange(start as int, i + 1) =~= h@.subrange(
                        start as int,
                        i as int,
                    ).push(h[i as int]));
                    i = i + 1;
                }
                assert(piece@ =~= h@.skip(start as int));
                let text = string_of(&piece);
                match parse_integer(text.as_str(), i64::MIN, i64::MAX) {
                    Some(count) => count,
                    None => 0,
                }
            },
            _ => 0,
        }
    }

    /// The patches that the items of the procedure's reply name.
    pub fn patches_from_rpc(items: &Vec<JsonItem>) -> (r: Vec<String>)
        ensures
            r.deep_view() == named_patches(items.deep_view()),
    {
        let ghost all = items.deep_view();
        let mut out: Vec<String> = Vec::new();
        let mut i: usize = 0;
        assert(out.deep_view() =~= named_patches(all.take(0)));
        while i < items.len()
            invariant
                i <= items.len(),
                all == items.deep_view(),
                out.deep_view() == named_patches(all.take(i as int)),
            decreases items.len() - i,
        {
            proof {
                assert(all.take(i + 1).drop_last() =~= all.take(i as int));
                assert(all.take(i + 1).last() == items[i as int]@);
            }
            let ghost held = out.deep_view();
            match &items[i] {
                JsonItem::Text { text } => {
                    out.push(text.clone());
                    assert(out.deep_view() =~= held.push(text@));
                },
                JsonItem::Object { patch_version: Some(version) } => {
                    out.push(version.clone());
                    assert(out.deep_view() =~= held.push(version@));
                },
                _ => {},
            }
            i = i + 1;
        }
        assert(all.take(items.len() as int) =~= all);
        out
    }

    /// What follows the answer of the stored procedure.
    pub fn after_rpc(reply: &RpcReply) -> (r: RpcOutcome)
        ensures
            r@ == rpc_outcome(reply@),
    {
        match reply {
            RpcReply::List { items } => {
                let patches = Self::patches_from_rpc(items);
                if patches.len() > 0 {
                    RpcOutcome::Patches { patches }
                } else {
                    RpcOutcome::Fallback { rpc_missing: false }
                }
            },
            RpcReply::Failed { status } => RpcOutcome::Fallback {
                rpc_missing: *status == NOT_FOUND,
            },
            _ => RpcOutcome::Fallback { rpc_missing: false },
        }
    }

    /// The patches that the items of the statistics name.
    pub fn patches_from_stats(items: &Vec<JsonItem>) -> (r: Vec<String>)
        ensures
            r.deep_view() == member_patches(items.deep_view()),
    {
        let ghost all = items.deep_view();
        let mut out: Vec<String> = Vec::new();
        let mut i: usize = 0;
        assert(out.deep_view() =~= member_patches(all.take(0)));
        while i < items.len()
            invariant
                i <= items.len(),
                all == items.deep_view(),
                out.deep_view() == member_patches(all.take(i as int)),
            decreases items.len() - i,
        {
            proof {
                assert(all.take(i + 1).drop_last() =~= all.take(i as int));
                assert(all.take(i + 1).last() == items[i as int]@);
            }
            let ghost held = out.deep_view();
            match &items[i] {
                JsonItem::Object { patch_version: Some(version) } => {
                    out.push(version.clone());
                    assert(out.deep_view() =~= held.push(version@));
                },
                _ => {},
            }
            i = i + 1;
        }
        assert(all.take(items.len() as int) =~= all);
        out
    }

    /// The list of the patches that the statistics have, from the items of
    /// the fallback's reply. It fails where the statistics name no patch and
    /// the stored procedure is missing.
    pub fn get_available_patches_stats(rpc_missing: bool, items: &Vec<JsonItem>) -> (r: Result<
        Vec<String>,
        String,
    >)
        ensures
            r is Err <==> rpc_missing && member_patches(items.deep_view()).len() == 0,
            r matches Err(e) ==> e@ == NOTHING_FOUND@,
            r matches Ok(patches) ==> is_patch_list(patches.deep_view(), items.deep_view()),
    {
        let named = Self::patches_from_stats(items);
        if named.len() == 0 && rpc_missing {
            return Err(NOTHING_FOUND.to_owned());
        }
        let mut once: Vec<String> = Vec::new();
        proof {
            assert(once.deep_view() =~= distinct(Seq::<Seq<char>>::empty()));
            assert(Seq::<Seq<char>>::empty() + named.deep_view() =~= named.deep_view());
            lemma_distinct(named.deep_view());
        }
        add_distinct(&mut once, &named, Ghost(Seq::empty()));
        let ghost src = once.deep_view();
        let mut keys: Vec<TextKey> = Vec::new();
        let mut i: usize = 0;
        while i < once.len()
            invariant
                i <= once.len(),
                keys.len() == i,
                forall|k: int| 0 <= k < i ==> (#[trigger] keys[k]).text@ == once[k]@,
            decreases once.len() - i,
        {
            keys.push(TextKey::new(once[i].as_str()));
            i = i + 1;
        }
        let order = sorted_order_by(&keys);
        let mut out: Vec<String> = Vec::new();
        let mut n: usize = once.len();
        while n > 0
            invariant
                n <= once.len(),
                order.len() == once.len(),
                keys.len() == once.len(),
                sorts_by(order@, keys@),
                out.len() == once.len() - n,
                forall|k: int|
                    0 <= k < out.len() ==> (#[trigger] out[k])@ == once[order[once.len() - 1
                        - k] as int]@,
            decreases n,
        {
            n = n - 1;
            out.push(once[order[n]].clone());
        }
        proof {
            let result = out.deep_view();
            let len = once.len() as int;
            assert forall|p: Seq<char>| result.contains(p) <==> member_patches(
                items.deep_view(),
            ).contains(p) by {
                assert(src.contains(p) <==> named.deep_view().contains(p));
                if result.contains(p) {
                    let k = choose|k: int| 0 <= k < result.len() && result[k] == p;
                    assert(src[order[len - 1 - k] as int] == p);
                }
                if src.contains(p) {
                    let v = choose|v: int| 0 <= v < src.len() && src[v] == p;
                    let at = lemma_permutation_reaches(order@, src.len(), v);
                    assert(result[len - 1 - at] == p);
                }
            }
            assert forall|a: int, b: int| 0 <= a < b < result.len() implies text_lt(
                #[trigger] result[b],
                #[trigger] result[a],
            ) by {
                let low = len - 1 - b;
                let high = len - 1 - a;
                assert(!keys[order[high] as int].precedes(keys[order[low] as int]));
                assert(order[low] != order[high]);
                assert(src[order[low] as int] != src[order[high] as int]);
                lemma_text_lt_total(result[a], result[b]);
            }
        }
        Ok(out)
    }
}

} // verus!
