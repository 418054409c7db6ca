use vstd::prelude::*;

verus! {

/// Whether `c` may appear in a provider group name: a lowercase ASCII letter or an
/// ASCII digit.
pub open spec fn is_group_name_char(c: char) -> bool {
    ('a' <= c && c <= 'z') || ('0' <= c && c <= '9')
}

/// Whether `name` is a valid provider group name: it holds only lowercase ASCII
/// letters and ASCII digits.
pub open spec fn provider_group_valid(name: Seq<char>) -> bool {
    forall|i: int| 0 <= i < name.len() ==> #[trigger] is_group_name_char(name[i])
}

/// A group name is valid exactly when every character, at every position, is a
/// lowercase ASCII letter `'a'..='z'` or an ASCII digit `'0'..='9'`; any other
/// character anywhere makes it invalid.
pub proof fn lemma_provider_group_valid_chars(name: Seq<char>)
    ensures
        provider_group_valid(name) <==> (forall|i: int|
            0 <= i < name.len() ==> (('a' <= #[trigger] name[i] && name[i] <= 'z') || ('0' <= name[i]
                && name[i] <= '9'))),
        forall|i: int|
            0 <= i < name.len() && !(('a' <= #[trigger] name[i] && name[i] <= 'z') || ('0' <= name[i]
                && name[i] <= '9')) ==> !provider_group_valid(name),
{
    assert forall|i: int|
        0 <= i < name.len() && !(('a' <= #[trigger] name[i] && name[i] <= 'z') || ('0' <= name[i]
            && name[i] <= '9')) implies !provider_group_valid(name) by {
        assert(!is_group_name_char(name[i]));
    }
    if forall|i: int|
        0 <= i < name.len() ==> (('a' <= #[trigger] name[i] && name[i] <= 'z') || ('0' <= name[i]
            && name[i] <= '9')) {
        assert forall|i: int| 0 <= i < name.len() implies #[trigger] is_group_name_char(name[i]) by {
            assert(('a' <= name[i] && name[i] <= 'z') || ('0' <= name[i] && name[i] <= '9'));
        }
    }
}

/// Whether `name` is a valid provider group name.
pub fn is_valid_provider_group_name(name: &str) -> (ok: bool)
    ensures
        ok == provider_group_valid(name@),
{
    let mut ok = true;
    for c in it: name.chars()
        invariant
            it.seq() == name@,
            ok == (forall|j: int| 0 <= j < it.index() ==> #[trigger] is_group_name_char(name@[j])),
    {
        let ghost k = it.index() as int;
        assert(c == name@[k]);
        assert(is_group_name_char(name@[k]) == (('a' <= c && c <= 'z') || ('0' <= c && c <= '9')));
        if !(('a' <= c && c <= 'z') || ('0' <= c && c <= '9')) {
            ok = false;
        }
    }
    ok
}

/// The kind of provider that a layer writes to. This models the Linux
/// (user_events) providers, where the two kinds take provider groups in the same
/// form: a group name of lowercase ASCII letters and digits. (Where groups are
/// GUIDs, on Windows, the rule would differ.)
pub trait ProviderTypes {
    /// Whether `group` may be used as this provider's group.
    fn is_valid_provider_group(group: &str) -> (ok: bool)
        ensures
            ok == provider_group_valid(group@),
    ;
}

/// A provider that writes events in the native event format.
pub struct Provider;

/// A provider that writes events that follow the Common Schema 4.0 mapping.
pub struct CommonSchemaProvider;

impl ProviderTypes for Provider {
    fn is_valid_provider_group(group: &str) -> (ok: bool) {
        is_valid_provider_group_name(group)
    }
}

impl ProviderTypes for CommonSchemaProvider {
    fn is_valid_provider_group(group: &str) -> (ok: bool) {
        is_valid_provider_group_name(group)
    }
}

} // verus!
