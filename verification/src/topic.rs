//! The names of topics.
use vstd::prelude::*;
use vstd::string::StrSliceExecFns;

use crate::state::topic_key;
use crate::text::find_char;
use crate::text::is_white_space;
use crate::text::law_trimming_takes_off_white_space;
use crate::text::lemma_trim_front;
use crate::text::take_chars;
use crate::text::trim;
use crate::text::trim_front;
use crate::text::trim_start_matches;
use crate::text::trimmed;

verus! {

/// The most characters in the name of a topic.
pub const MAX_TOPIC_CHARS: usize = 128;

/// The topic of those who name none.
pub fn default_topic() -> (r: String)
    ensures
        r@ == "public"@,
{
    "public".to_owned()
}

/// The name that a client's text stands for: without white space around it and slashes before
/// it, cut to `MAX_TOPIC_CHARS`; the default topic where nothing is left.
pub open spec fn normalized(topic: Seq<char>) -> Seq<char> {
    let name = trim_front(trimmed(topic), |c: char| c == '/');
    if name.len() == 0 {
        "public"@
    } else if name.len() <= MAX_TOPIC_CHARS {
        name
    } else {
        name.take(MAX_TOPIC_CHARS as int)
    }
}

/// The name that a client's text stands for.
pub fn normalize_topic(topic: &str) -> (r: String)
    ensures
        r@ == normalized(topic@),
        1 <= r@.len() <= MAX_TOPIC_CHARS,
{
    proof {
        law_topic_names_are_short(topic@);
    }
    let name = trim_start_matches(trim(topic), '/');
    if name.unicode_len() == 0 {
        default_topic()
    } else {
        take_chars(name, MAX_TOPIC_CHARS).to_owned()
    }
}

/// What follows the first colon of a key, or the whole key where it holds none.
pub open spec fn extracted(key: Seq<char>) -> Seq<char> {
    if key.contains(':') {
        key.skip(key.index_of_first(':')->0 + 1)
    } else {
        key
    }
}

/// The name of a topic, from its key.
pub fn extract_topic(key: &str) -> (r: &str)
    ensures
        r@ == extracted(key@),
{
    let n: usize = key.unicode_len();
    match find_char(key, ':') {
        Some(i) => {
            proof {
                key@.index_of_first_ensures(':');
            }
            let name = key.substring_char(i + 1, n);
            assert(key@.contains(':'));
            assert(name@ =~= key@.skip(i + 1));
            name
        },
        None => key,
    }
}

/// The name of a topic is never empty and never longer than `MAX_TOPIC_CHARS`.
pub proof fn law_topic_names_are_short(topic: Seq<char>)
    ensures
        1 <= normalized(topic).len() <= MAX_TOPIC_CHARS,
{
    reveal_strlit("public");
}

/// A name that needs no trimming and is short enough stays as it is.
pub proof fn law_plain_topic_names_stay(topic: Seq<char>)
    requires
        1 <= topic.len() <= MAX_TOPIC_CHARS,
        !is_white_space(topic.first()),
        topic.first() != '/',
        !is_white_space(topic.last()),
    ensures
        normalized(topic) == topic,
{
}

/// A client finds its topic under the name that it gave, where its tenant's id holds no colon.
pub proof fn law_clients_see_their_topic(tenant: Seq<char>, topic: Seq<char>)
    requires
        !tenant.contains(':'),
    ensures
        extracted(topic_key(tenant, topic)) == topic,
{
    let key = topic_key(tenant, topic);
    assert(key[tenant.len() as int] == ':');
    assert(key.contains(':'));
    key.index_of_first_ensures(':');
    let i = key.index_of_first(':')->0;
    if i < tenant.len() {
        assert(tenant[i] == ':');
    }
    assert(i == tenant.len());
    assert(key.skip(i + 1) =~= topic);
}

/// Whatever white space stands around a name and whatever slashes stand before it, the name alone
/// counts, cut to its first 128 characters. Where there is no name, it is `public`.
pub proof fn law_topic_name_is_what_is_left(
    front: Seq<char>,
    slashes: Seq<char>,
    name: Seq<char>,
    back: Seq<char>,
)
    requires
        forall|i: int| 0 <= i < front.len() ==> is_white_space(#[trigger] front[i]),
        forall|i: int| 0 <= i < slashes.len() ==> #[trigger] slashes[i] == '/',
        forall|i: int| 0 <= i < back.len() ==> is_white_space(#[trigger] back[i]),
        name.len() > 0 ==> name.first() != '/' && !is_white_space(name.last()),
        name.len() > 0 && slashes.len() == 0 ==> !is_white_space(name.first()),
    ensures
        name.len() == 0 ==> normalized(front + slashes + name + back) == "public"@,
        0 < name.len() <= 128 ==> normalized(front + slashes + name + back) == name,
        name.len() > 128 ==> normalized(front + slashes + name + back) == name.take(128),
{
    let core = slashes + name;
    assert(front + slashes + name + back =~= front + core + back);
    assert(core.len() > 0 ==> !is_white_space(core.first()) && !is_white_space(core.last())) by {
        if slashes.len() > 0 {
            assert(core.first() == slashes[0]);
        } else {
            assert(core =~= name);
        }
        if name.len() > 0 {
            assert(core.last() == name.last());
        } else if slashes.len() > 0 {
            assert(core =~= slashes);
            assert(core.last() == slashes[slashes.len() - 1]);
        }
    }
    law_trimming_takes_off_white_space(front, core, back);
    let skip = |c: char| c == '/';
    assert forall|i: int| 0 <= i < slashes.len() implies skip(#[trigger] slashes[i]) by {}
    lemma_trim_front(slashes, name, skip);
    assert(trim_front(core, skip) == name);
}

/// A key falls apart at its first colon: what stands before it holds none, and what follows is the
/// name. A key without a colon is its own name.
pub proof fn law_keys_split_at_their_first_colon(front: Seq<char>, name: Seq<char>)
    requires
        !front.contains(':'),
    ensures
        extracted(front + seq![':'] + name) == name,
        extracted(front) == front,
{
    let key = front + seq![':'] + name;
    assert(key[front.len() as int] == ':');
    assert(key.contains(':'));
    key.index_of_first_ensures(':');
    let i = key.index_of_first(':')->0;
    if i < front.len() {
        assert(front[i] == ':');
    }
    assert(key.skip(i + 1) =~= name);
}

} // verus!
