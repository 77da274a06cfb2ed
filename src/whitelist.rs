use crate::contract::contains_address;
use crate::error::ContractError;
use crate::msg::{
    owner_only, view_result, Action, AddToWhitelistMsg, Config, InstructionView, RemoveFromWhitelistMsg, Response,
    ResponseView, UpdateOwnerMsg, UpdateRecipientMsg,
};
use vstd::prelude::*;

verus! {

/// The principals of a list of addresses.
pub open spec fn addresses_view(list: Seq<String>) -> Seq<Seq<char>> {
    list.map_values(|a: String| a@)
}

/// The whitelist after adding `addrs`: the old list, followed by each added
/// principal that neither the old list nor an earlier added one holds, in
/// order.
pub open spec fn added_whitelist(list: Seq<Seq<char>>, addrs: Seq<Seq<char>>) -> Seq<Seq<char>>
    decreases addrs.len(),
{
    if addrs.len() == 0 {
        list
    } else {
        with_member(added_whitelist(list, addrs.drop_last()), addrs.last())
    }
}

/// The principals that lead every whitelist: the owner, then the recipient
/// when it is another principal.
pub open spec fn principals(owner: Seq<char>, recipient: Seq<char>) -> Seq<Seq<char>> {
    if owner == recipient {
        seq![owner]
    } else {
        seq![owner, recipient]
    }
}

/// The whitelist after removing `addrs`: the owner and the recipient (once
/// when they are one principal), then
/// each other principal of the old list that is not removed, in order.
pub open spec fn removed_whitelist(
    owner: Seq<char>,
    recipient: Seq<char>,
    list: Seq<Seq<char>>,
    addrs: Seq<Seq<char>>,
) -> Seq<Seq<char>> {
    principals(owner, recipient) + list.filter(kept_on_removal(owner, recipient, addrs))
}

/// Whether a principal stays after removing `addrs`, besides the owner and
/// the recipient that always lead the list.
pub open spec fn kept_on_removal(
    owner: Seq<char>,
    recipient: Seq<char>,
    addrs: Seq<Seq<char>>,
) -> spec_fn(Seq<char>) -> bool {
    |a: Seq<char>| !addrs.contains(a) && a != owner && a != recipient
}

/// `list` with `a` appended unless it holds it already.
pub open spec fn with_member(list: Seq<Seq<char>>, a: Seq<char>) -> Seq<Seq<char>> {
    if list.contains(a) {
        list
    } else {
        list.push(a)
    }
}

/// The schedule of `b` is that of `a`.
pub open spec fn same_terms(a: Config, b: Config) -> bool {
    &&& b.cliff_amount == a.cliff_amount
    &&& b.vesting_amount == a.vesting_amount
    &&& b.start_time == a.start_time
    &&& b.end_time == a.end_time
}

/// An administrative response of the given kind, with no instruction.
pub open spec fn admin_response(action: Action) -> ResponseView {
    ResponseView { action, messages: Seq::empty() }
}

/// A response of the given kind, with no instruction.
pub fn admin(action: Action) -> (r: Response)
    ensures
        r@ == admin_response(action),
{
    let r = Response { action, messages: Vec::new() };
    assert(r@.messages =~= Seq::<InstructionView>::empty());
    r
}

/// Filtering one more element of a prefix keeps it exactly when it passes.
pub proof fn lemma_filter_take_step<A>(s: Seq<A>, pred: spec_fn(A) -> bool, i: int)
    requires
        0 <= i < s.len(),
    ensures
        s.take(i + 1).filter(pred) == if pred(s[i]) {
            s.take(i).filter(pred).push(s[i])
        } else {
            s.take(i).filter(pred)
        },
{
    reveal(Seq::filter);
    assert(s.take(i + 1).drop_last() =~= s.take(i));
    assert(s.take(i + 1).last() == s[i]);
}

/// Appending a principal that the list lacks keeps it free of duplicates.
pub proof fn lemma_with_member(list: Seq<Seq<char>>, a: Seq<char>)
    requires
        list.no_duplicates(),
    ensures
        with_member(list, a).no_duplicates(),
        with_member(list, a).contains(a),
        forall|x: Seq<char>| list.contains(x) ==> #[trigger] with_member(list, a).contains(x),
{
    if list.contains(a) {
    } else {
        let l = list.push(a);
        assert(l[list.len() as int] == a);
        assert forall|x: Seq<char>| list.contains(x) implies #[trigger] l.contains(x) by {
            let j = choose|j: int| 0 <= j < list.len() && list[j] == x;
            assert(l[j] == x);
        }
    }
}

/// Filtering a list without duplicates leaves none.
pub proof fn lemma_filter_no_duplicates<A>(s: Seq<A>, pred: spec_fn(A) -> bool)
    requires
        s.no_duplicates(),
    ensures
        s.filter(pred).no_duplicates(),
        forall|x: A| #[trigger] s.filter(pred).contains(x) ==> s.contains(x) && pred(x),
    decreases s.len(),
{
    reveal(Seq::filter);
    if s.len() > 0 {
        let rest = s.drop_last();
        assert(rest.no_duplicates());
        lemma_filter_no_duplicates(rest, pred);
        assert forall|x: A| #[trigger] rest.contains(x) implies s.contains(x) by {
            let j = choose|j: int| 0 <= j < rest.len() && rest[j] == x;
            assert(s[j] == x);
        }
        assert(!rest.contains(s.last())) by {
            if rest.contains(s.last()) {
                let j = choose|j: int| 0 <= j < rest.len() && rest[j] == s.last();
                assert(s[j] == s[s.len() - 1]);
            }
        }
        let f = rest.filter(pred);
        if pred(s.last()) {
            assert(s.filter(pred) == f.push(s.last()));
            assert(!f.contains(s.last()));
            let g = f.push(s.last());
            assert forall|a: int, b: int| 0 <= a < g.len() && 0 <= b < g.len() && a != b implies g[a]
                != g[b] by {
                if a < f.len() && b < f.len() {
                } else if a < f.len() {
                    assert(f.contains(f[a]));
                } else if b < f.len() {
                    assert(f.contains(f[b]));
                }
            }
            assert forall|x: A| #[trigger] f.push(s.last()).contains(x) implies s.contains(x)
                && pred(x) by {
                let j = choose|j: int| 0 <= j < f.len() + 1 && f.push(s.last())[j] == x;
                if j < f.len() {
                    assert(f[j] == x);
                    assert(f.contains(x));
                } else {
                    assert(s[s.len() - 1] == x);
                }
            }
        } else {
            assert(s.filter(pred) == f);
        }
    }
}

/// Whether no principal occurs twice in `list`.
pub fn has_no_duplicates(list: &Vec<String>) -> (r: bool)
    ensures
        r == addresses_view(list@).no_duplicates(),
{
    let ghost view = addresses_view(list@);
    let mut i: usize = 0;
    while i < list.len()
        invariant
            i <= list.len(),
            view == addresses_view(list@),
            forall|a: int, b: int| 0 <= a < i && 0 <= b < i && a != b ==> view[a] != view[b],
        decreases list.len() - i,
    {
        let mut j: usize = 0;
        while j < i
            invariant
                j <= i < list.len(),
                view == addresses_view(list@),
                forall|a: int, b: int| 0 <= a < i && 0 <= b < i && a != b ==> view[a] != view[b],
                forall|b: int| 0 <= b < j ==> view[b] != view[i as int],
            decreases i - j,
        {
            if list[j].eq(&list[i]) {
                assert(view[j as int] == view[i as int]);
                return false;
            }
            j += 1;
        }
        i += 1;
    }
    true
}

/// A copy of each address.
pub fn copy_addresses(list: &Vec<String>) -> (r: Vec<String>)
    ensures
        r@ == list@,
{
    let mut r: Vec<String> = Vec::new();
    let mut i: usize = 0;
    while i < list.len()
        invariant
            i <= list.len(),
            r@ == list@.take(i as int),
        decreases list.len() - i,
    {
        r.push(list[i].clone());
        i += 1;
        assert(r@ =~= list@.take(i as int));
    }
    assert(list@.take(i as int) =~= list@);
    r
}

/// Adds principals to the whitelist, each at most once, in order; the owner
/// only.
pub fn add_to_whitelist(config: &mut Config, sender: &String, data: &AddToWhitelistMsg) -> (r:
    Result<Response, ContractError>)
    requires
        old(config).wf(),
    ensures
        view_result(r) == owner_only(*old(config), sender@, admin_response(Action::AddToWhitelist)),
        sender@ != old(config).owner@ ==> *final(config) == *old(config),
        sender@ == old(config).owner@ ==> final(config).whitelist() == added_whitelist(
            old(config).whitelist(),
            addresses_view(data.addresses@),
        ),
        final(config).owner == old(config).owner,
        final(config).recipient == old(config).recipient,
        same_terms(*old(config), *final(config)),
        final(config).wf(),
{
    if !sender.eq(&config.owner) {
        return Err(ContractError::Unauthorized {  });
    }
    let ghost list = config.whitelist();
    let ghost addrs = addresses_view(data.addresses@);
    let mut i: usize = 0;
    assert(addrs.take(0) =~= Seq::<Seq<char>>::empty());
    while i < data.addresses.len()
        invariant
            i <= data.addresses.len(),
            addrs == addresses_view(data.addresses@),
            config.whitelist() == added_whitelist(list, addrs.take(i as int)),
            config.whitelist().no_duplicates(),
            config.whitelist().contains(config.owner@),
            config.whitelist().contains(config.recipient@),
            same_terms(*old(config), *config),
            config.owner == old(config).owner,
            config.recipient == old(config).recipient,
        decreases data.addresses.len() - i,
    {
        let addr = &data.addresses[i];
        let ghost current = config.whitelist();
        proof {
            assert(addrs.take(i + 1).drop_last() =~= addrs.take(i as int));
            assert(addrs.take(i + 1).last() == addr@);
            lemma_with_member(current, addr@);
        }
        if !contains_address(&config.whitelisted_addresses, addr) {
            config.whitelisted_addresses.push(addr.clone());
            assert(config.whitelist() =~= current.push(addr@));
        }
        i += 1;
    }
    assert(addrs.take(i as int) =~= addrs);
    Ok(admin(Action::AddToWhitelist))
}

/// The owner, then the recipient when it is another principal.
pub fn leading_principals(owner: &String, recipient: &String) -> (r: Vec<String>)
    ensures
        addresses_view(r@) == principals(owner@, recipient@),
        addresses_view(r@).no_duplicates(),
{
    if owner.eq(recipient) {
        let r = vec![owner.clone()];
        assert(addresses_view(r@) =~= principals(owner@, recipient@));
        r
    } else {
        let r = vec![owner.clone(), recipient.clone()];
        assert(addresses_view(r@) =~= principals(owner@, recipient@));
        r
    }
}

/// Removes principals from the whitelist, keeping the owner and the
/// recipient in front; the owner only.
pub fn remove_from_whitelist(
    config: &mut Config,
    sender: &String,
    data: &RemoveFromWhitelistMsg,
) -> (r: Result<Response, ContractError>)
    requires
        old(config).wf(),
    ensures
        view_result(r) == owner_only(*old(config), sender@, admin_response(Action::RemoveFromWhitelist)),
        sender@ != old(config).owner@ ==> *final(config) == *old(config),
        sender@ == old(config).owner@ ==> final(config).whitelist() == removed_whitelist(
            old(config).owner@,
            old(config).recipient@,
            old(config).whitelist(),
            addresses_view(data.addresses@),
        ),
        final(config).owner == old(config).owner,
        final(config).recipient == old(config).recipient,
        same_terms(*old(config), *final(config)),
        final(config).wf(),
{
    if !sender.eq(&config.owner) {
        return Err(ContractError::Unauthorized {  });
    }
    let ghost list = config.whitelist();
    let ghost addrs = addresses_view(data.addresses@);
    let ghost owner = config.owner@;
    let ghost recipient = config.recipient@;
    let ghost pred = kept_on_removal(owner, recipient, addrs);
    let mut kept: Vec<String> = Vec::new();
    let mut i: usize = 0;
    while i < config.whitelisted_addresses.len()
        invariant
            i <= config.whitelisted_addresses.len(),
            list == config.whitelist(),
            addrs == addresses_view(data.addresses@),
            owner == config.owner@,
            recipient == config.recipient@,
            pred == kept_on_removal(owner, recipient, addrs),
            addresses_view(kept@) == list.take(i as int).filter(pred),
        decreases config.whitelisted_addresses.len() - i,
    {
        let addr = &config.whitelisted_addresses[i];
        let removed = contains_address(&data.addresses, addr);
        proof {
            lemma_filter_take_step(list, pred, i as int);
            assert(list[i as int] == addr@);
        }
        if !removed && !addr.eq(&config.recipient) && !addr.eq(&config.owner) {
            kept.push(addr.clone());
        }
        i += 1;
        assert(addresses_view(kept@) =~= list.take(i as int).filter(pred));
    }
    assert(list.take(i as int) =~= list);
    let mut whitelist = leading_principals(&config.owner, &config.recipient);
    whitelist.append(&mut kept);
    config.whitelisted_addresses = whitelist;
    assert(config.whitelist() =~= principals(owner, recipient) + list.filter(pred));
    proof {
        let front = principals(owner, recipient);
        assert(config.whitelist()[0] == owner);
        assert(config.whitelist()[front.len() - 1] == recipient);
        lemma_filter_no_duplicates(list, pred);
        let rest = list.filter(pred);
        assert forall|a: int, b: int| 0 <= a < front.len() && 0 <= b < rest.len() implies front[a]
            != rest[b] by {
            assert(rest.contains(rest[b]));
        }
        vstd::seq_lib::lemma_no_dup_in_concat(front, rest);
    }
    Ok(admin(Action::RemoveFromWhitelist))
}

/// Hands the owner role to another principal, who joins the whitelist; the
/// owner only.
pub fn update_owner(config: &mut Config, sender: &String, data: &UpdateOwnerMsg) -> (r: Result<
    Response,
    ContractError,
>)
    requires
        old(config).wf(),
    ensures
        view_result(r) == owner_only(*old(config), sender@, admin_response(Action::UpdateOwner)),
        sender@ != old(config).owner@ ==> *final(config) == *old(config),
        sender@ == old(config).owner@ ==> final(config).owner@ == data.owner@
            && final(config).whitelist() == with_member(old(config).whitelist(), data.owner@),
        final(config).recipient == old(config).recipient,
        same_terms(*old(config), *final(config)),
        final(config).wf(),
{
    if !sender.eq(&config.owner) {
        return Err(ContractError::Unauthorized {  });
    }
    let ghost list = config.whitelist();
    proof {
        lemma_with_member(list, data.owner@);
    }
    if !contains_address(&config.whitelisted_addresses, &data.owner) {
        config.whitelisted_addresses.push(data.owner.clone());
        assert(config.whitelist() =~= list.push(data.owner@));
        assert(config.whitelist()[list.len() as int] == data.owner@);
    }
    config.owner = data.owner.clone();
    proof {
        let k = choose|k: int| 0 <= k < list.len() && list[k] == config.recipient@;
        assert(config.whitelist()[k] == config.recipient@);
    }
    Ok(admin(Action::UpdateOwner))
}

/// Hands the recipient role to another principal, who joins the whitelist;
/// the owner only.
pub fn update_recipient(config: &mut Config, sender: &String, data: &UpdateRecipientMsg) -> (r:
    Result<Response, ContractError>)
    requires
        old(config).wf(),
    ensures
        view_result(r) == owner_only(*old(config), sender@, admin_response(Action::UpdateRecipient)),
        sender@ != old(config).owner@ ==> *final(config) == *old(config),
        sender@ == old(config).owner@ ==> final(config).recipient@ == data.recipient@
            && final(config).whitelist() == with_member(old(config).whitelist(), data.recipient@),
        final(config).owner == old(config).owner,
        same_terms(*old(config), *final(config)),
        final(config).wf(),
{
    if !sender.eq(&config.owner) {
        return Err(ContractError::Unauthorized {  });
    }
    let ghost list = config.whitelist();
    proof {
        lemma_with_member(list, data.recipient@);
    }
    if !contains_address(&config.whitelisted_addresses, &data.recipient) {
        config.whitelisted_addresses.push(data.recipient.clone());
        assert(config.whitelist() =~= list.push(data.recipient@));
        assert(config.whitelist()[list.len() as int] == data.recipient@);
    }
    config.recipient = data.recipient.clone();
    proof {
        let k = choose|k: int| 0 <= k < list.len() && list[k] == config.owner@;
        assert(config.whitelist()[k] == config.owner@);
    }
    Ok(admin(Action::UpdateRecipient))
}

} // verus!
