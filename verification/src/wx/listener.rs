//! The chats that are listened to.
//!
//! The list lives here; the sidecar loses its registrations when it restarts, and gets
//! them back from here. A chat is entered or struck only once the sidecar has agreed.

use vstd::prelude::*;
use crate::json::{lemma_put_get, Json, JsonTree};
use crate::sidecar::protocol::RpcError;
use crate::text::{
    copy_texts, lemma_text_less_total, lemma_text_less_transitive, same_text, text_before, text_less,
    texts,
};

verus! {

/// The chats that are listened to, in order and without repetition.
pub struct ListenerRegistry {
    names: Vec<String>,
}

/// Each text comes before those that follow it.
pub open spec fn ascending(s: Seq<Seq<char>>) -> bool {
    forall|i: int, j: int| 0 <= i < j < s.len() ==> text_less(#[trigger] s[i], #[trigger] s[j])
}

/// The parameters that name a chat.
pub open spec fn nickname_tree(nickname: Seq<char>) -> JsonTree {
    JsonTree::object().put("nickname"@, JsonTree::Str(nickname))
}

/// The texts whose flag is not set, in order.
pub open spec fn refused(names: Seq<Seq<char>>, accepted: Seq<bool>) -> Seq<Seq<char>>
    decreases names.len(),
{
    if names.len() == 0 || accepted.len() == 0 {
        Seq::empty()
    } else if accepted.last() {
        refused(names.drop_last(), accepted.drop_last())
    } else {
        refused(names.drop_last(), accepted.drop_last()).push(names.last())
    }
}

/// An ascending list is determined by what is on it.
pub proof fn law_order_is_determined(a: Seq<Seq<char>>, b: Seq<Seq<char>>)
    requires
        ascending(a),
        ascending(b),
        a.to_set() == b.to_set(),
    ensures
        a == b,
    decreases a.len(),
{
    if a.len() == 0 {
        if b.len() > 0 {
            assert(b.to_set().contains(b[0]));
            assert(a.to_set().contains(b[0]));
        }
        assert(a =~= b);
    } else {
        assert(a.to_set().contains(a.last()));
        assert(b.to_set().contains(a.last()));
        let k = choose|k: int| 0 <= k < b.len() && b[k] == a.last();
        assert(b.to_set().contains(b.last()));
        assert(a.to_set().contains(b.last()));
        let m = choose|m: int| 0 <= m < a.len() && a[m] == b.last();
        if a.last() != b.last() {
            assert(text_less(b[k], b.last()));
            assert(text_less(a[m], a.last()));
            lemma_text_less_total(a.last(), b.last());
        }
        let x = a.drop_last();
        let y = b.drop_last();
        assert forall|t: Seq<char>| x.contains(t) implies y.contains(t) by {
            let i = choose|i: int| 0 <= i < x.len() && x[i] == t;
            assert(text_less(a[i], a.last()));
            lemma_text_less_total(a.last(), a.last());
            assert(a.to_set().contains(a[i]));
            assert(b.to_set().contains(t));
            let j = choose|j: int| 0 <= j < b.len() && b[j] == t;
            assert(y[j] == t);
        }
        assert forall|t: Seq<char>| y.contains(t) implies x.contains(t) by {
            let i = choose|i: int| 0 <= i < y.len() && y[i] == t;
            assert(text_less(b[i], b.last()));
            lemma_text_less_total(b.last(), b.last());
            assert(b.to_set().contains(b[i]));
            assert(a.to_set().contains(t));
            let j = choose|j: int| 0 <= j < a.len() && a[j] == t;
            assert(x[j] == t);
        }
        assert(x.to_set() =~= y.to_set());
        law_order_is_determined(x, y);
        assert(a =~= x.push(a.last()));
        assert(b =~= y.push(b.last()));
    }
}

/// An ascending list names nothing twice.
pub proof fn law_names_are_unique(s: Seq<Seq<char>>)
    requires
        ascending(s),
    ensures
        s.no_duplicates(),
{
    assert forall|i: int, j: int| 0 <= i < j < s.len() implies s[i] != s[j] by {
        assert(text_less(s[i], s[j]));
        lemma_text_less_total(s[i], s[j]);
    }
}

impl ListenerRegistry {
    /// The names, in order.
    pub closed spec fn view(&self) -> Seq<Seq<char>> {
        texts(self.names@)
    }

    /// The names are in order, and none occurs twice.
    pub open spec fn wf(&self) -> bool {
        ascending(self.view())
    }

    /// The empty list.
    pub fn new() -> (r: ListenerRegistry)
        ensures
            r.wf(),
            r.view() == Seq::<Seq<char>>::empty(),
    {
        let r = ListenerRegistry { names: Vec::new() };
        assert(r.view() =~= Seq::<Seq<char>>::empty());
        r
    }

    /// The list of the given names.
    pub fn new_seeded(initial: Vec<String>) -> (r: ListenerRegistry)
        ensures
            r.wf(),
            r.view().to_set() == texts(initial@).to_set(),
    {
        let mut r = ListenerRegistry::new();
        let mut i: usize = 0;
        assert(r.view().to_set() =~= texts(initial@).take(0).to_set());
        while i < initial.len()
            invariant
                i <= initial@.len(),
                r.wf(),
                r.view().to_set() == texts(initial@).take(i as int).to_set(),
            decreases initial.len() - i,
        {
            let ghost before = texts(initial@).take(i as int);
            r.insert(initial[i].clone());
            i = i + 1;
            let ghost after = texts(initial@).take(i as int);
            assert(after =~= before.push(initial@[i as int - 1]@));
            assert(after.to_set() =~= before.to_set().insert(initial@[i as int - 1]@)) by {
                lemma_push_to_set(before, initial@[i as int - 1]@);
            }
        }
        assert(texts(initial@).take(i as int) =~= texts(initial@));
        r
    }

    /// Enters a name.
    fn insert(&mut self, name: String)
        requires
            old(self).wf(),
        ensures
            final(self).wf(),
            final(self).view().to_set() == old(self).view().to_set().insert(name@),
    {
        let ghost before = self.view();
        let ghost n = name@;
        let mut i: usize = 0;
        while i < self.names.len() && text_before(self.names[i].as_str(), name.as_str())
            invariant
                i <= self.names@.len(),
                self.view() == before,
                n == name@,
                forall|k: int| 0 <= k < i ==> text_less(#[trigger] before[k], n),
            decreases self.names.len() - i,
        {
            assert(before[i as int] == self.names@[i as int]@);
            i = i + 1;
        }
        if i < self.names.len() && same_text(self.names[i].as_str(), name.as_str()) {
            assert(before[i as int] == n);
            assert(before.contains(n));
            assert(before.to_set().insert(n) =~= before.to_set());
        } else {
            let ghost old_names = self.names@;
            self.names.insert(i, name);
            let ghost after = self.view();
            proof {
                assert(after =~= before.insert(i as int, n));
                if i < before.len() {
                    assert(before[i as int] == old_names[i as int]@);
                    lemma_text_less_total(before[i as int], n);
                }
                assert forall|k: int| i <= k < before.len() implies text_less(
                    n,
                    #[trigger] before[k],
                ) by {
                    if k > i {
                        assert(text_less(before[i as int], before[k]));
                        lemma_text_less_transitive(n, before[i as int], before[k]);
                    }
                }
                assert(ascending(after)) by {
                    assert forall|a: int, b: int| 0 <= a < b < after.len() implies text_less(
                        #[trigger] after[a],
                        #[trigger] after[b],
                    ) by {
                        let a0 = if a < i {
                            a
                        } else {
                            a - 1
                        };
                        let b0 = if b < i {
                            b
                        } else {
                            b - 1
                        };
                        if a != i && b != i {
                            assert(text_less(before[a0], before[b0]));
                        } else if a == i {
                            assert(text_less(n, before[b0]));
                        } else {
                            assert(text_less(before[a0], n));
                        }
                    }
                }
                assert forall|t: Seq<char>| after.contains(t) <==> before.contains(t) || t == n by {
                    if before.contains(t) {
                        let k = choose|k: int| 0 <= k < before.len() && before[k] == t;
                        if k < i {
                            assert(after[k] == t);
                        } else {
                            assert(after[k + 1] == t);
                        }
                    }
                    assert(after[i as int] == n);
                }
                assert(after.to_set() =~= before.to_set().insert(n));
            }
        }
    }

    /// Strikes a name.
    fn strike(&mut self, name: &str)
        requires
            old(self).wf(),
        ensures
            final(self).wf(),
            final(self).view().to_set() == old(self).view().to_set().remove(name@),
    {
        let ghost before = self.view();
        let mut i: usize = 0;
        while i < self.names.len()
            invariant
                i <= self.names@.len(),
                self.view() == before,
                before == old(self).view(),
                ascending(before),
                forall|k: int| 0 <= k < i ==> #[trigger] before[k] != name@,
            decreases self.names.len() - i,
        {
            assert(before[i as int] == self.names@[i as int]@);
            if same_text(self.names[i].as_str(), name) {
                self.names.remove(i);
                let ghost after = self.view();
                proof {
                    law_names_are_unique(before);
                    assert(after =~= before.remove(i as int));
                    assert forall|t: Seq<char>|
                        after.contains(t) <==> before.contains(t) && t != name@ by {
                        if after.contains(t) {
                            let k = choose|k: int| 0 <= k < after.len() && after[k] == t;
                            let k0 = if k < i {
                                k
                            } else {
                                k + 1
                            };
                            assert(before[k0] == t);
                        }
                        if before.contains(t) && t != name@ {
                            let k = choose|k: int| 0 <= k < before.len() && before[k] == t;
                            let k0 = if k < i {
                                k
                            } else {
                                k - 1
                            };
                            assert(after[k0] == t);
                        }
                    }
                    assert(after.to_set() =~= before.to_set().remove(name@));
                }
                return;
            }
            i = i + 1;
        }
        assert(before.to_set().remove(name@) =~= before.to_set());
    }

    /// The parameters of the action that adds or removes a chat.
    pub fn action_params(nickname: &str) -> (r: Json)
        ensures
            r@ == nickname_tree(nickname@),
    {
        Json::object().put("nickname", Json::text(nickname))
    }

    /// Enters a chat once the sidecar has been asked: with its consent the name is on the
    /// list, and the list to be saved is handed back; without it the list stays as it is.
    pub fn add(&mut self, nickname: String, asked: &Result<Json, RpcError>) -> (r: Result<
        Vec<String>,
        String,
    >)
        requires
            old(self).wf(),
        ensures
            final(self).wf(),
            match asked {
                Ok(_) => {
                    &&& final(self).view().to_set() == old(self).view().to_set().insert(nickname@)
                    &&& r matches Ok(names) && texts(names@) == final(self).view()
                },
                Err(e) => {
                    &&& final(self).view() == old(self).view()
                    &&& r matches Err(text) && text@ == e@.text()
                },
            },
    {
        match asked {
            Ok(_) => {
                self.insert(nickname);
                Ok(self.list())
            },
            Err(e) => Err(e.message()),
        }
    }

    /// Strikes a chat once the sidecar has been asked, in the same way.
    pub fn remove(&mut self, nickname: &str, asked: &Result<Json, RpcError>) -> (r: Result<
        Vec<String>,
        String,
    >)
        requires
            old(self).wf(),
        ensures
            final(self).wf(),
            match asked {
                Ok(_) => {
                    &&& final(self).view().to_set() == old(self).view().to_set().remove(nickname@)
                    &&& r matches Ok(names) && texts(names@) == final(self).view()
                },
                Err(e) => {
                    &&& final(self).view() == old(self).view()
                    &&& r matches Err(text) && text@ == e@.text()
                },
            },
    {
        match asked {
            Ok(_) => {
                self.strike(nickname);
                Ok(self.list())
            },
            Err(e) => Err(e.message()),
        }
    }

    /// The names, in order. This is also the order in which a restarted sidecar is asked to
    /// listen again.
    pub fn list(&self) -> (r: Vec<String>)
        ensures
            texts(r@) == self.view(),
    {
        copy_texts(&self.names)
    }

    /// Which names the sidecar refused when it was asked to listen again, given its answer to
    /// each. One refusal does not keep the others from being asked for.
    pub fn resync(names: &Vec<String>, accepted: &Vec<bool>) -> (r: Vec<String>)
        requires
            names@.len() == accepted@.len(),
        ensures
            texts(r@) == refused(texts(names@), accepted@),
    {
        let mut out: Vec<String> = Vec::new();
        let mut i: usize = 0;
        assert(texts(out@) =~= refused(texts(names@).take(0), accepted@.take(0)));
        while i < names.len()
            invariant
                i <= names@.len(),
                names@.len() == accepted@.len(),
                texts(out@) == refused(texts(names@).take(i as int), accepted@.take(i as int)),
            decreases names.len() - i,
        {
            let ghost ns = texts(names@).take(i as int + 1);
            let ghost acc = accepted@.take(i as int + 1);
            assert(ns.drop_last() =~= texts(names@).take(i as int));
            assert(acc.drop_last() =~= accepted@.take(i as int));
            if !accepted[i] {
                let ghost before = out@;
                out.push(names[i].clone());
                assert(texts(out@) =~= texts(before).push(names@[i as int]@));
            }
            i = i + 1;
        }
        assert(texts(names@).take(i as int) =~= texts(names@));
        assert(accepted@.take(i as int) =~= accepted@);
        out
    }
}

/// Adding an item to a sequence adds it to the set of its items.
proof fn lemma_push_to_set(s: Seq<Seq<char>>, t: Seq<char>)
    ensures
        s.push(t).to_set() == s.to_set().insert(t),
{
    assert forall|x: Seq<char>|
        s.push(t).to_set().contains(x) <==> s.to_set().insert(t).contains(x) by {
        if s.contains(x) {
            let k = choose|k: int| 0 <= k < s.len() && s[k] == x;
            assert(s.push(t)[k] == x);
        }
        assert(s.push(t)[s.len() as int] == t);
    }
    assert(s.push(t).to_set() =~= s.to_set().insert(t));
}

/// A chat is named by its nickname, and by nothing else.
pub proof fn law_chat_is_named_by_its_nickname(nickname: Seq<char>, k: Seq<char>)
    ensures
        nickname_tree(nickname).get("nickname"@) == Some(JsonTree::Str(nickname)),
        nickname_tree(nickname).get(k) is Some ==> k == "nickname"@,
{
    broadcast use lemma_put_get;

}

/// The chats that were refused are exactly those that the sidecar did not accept, each of them
/// judged by its own answer, in their order.
pub proof fn law_refusals_are_judged_one_by_one(
    names: Seq<Seq<char>>,
    accepted: Seq<bool>,
    name: Seq<char>,
    ok: bool,
)
    requires
        names.len() == accepted.len(),
    ensures
        refused(names.push(name), accepted.push(ok)) == if ok {
            refused(names, accepted)
        } else {
            refused(names, accepted).push(name)
        },
        refused(Seq::empty(), Seq::empty()).len() == 0,
        refused(names, accepted).contains(name) <==> exists|i: int|
            0 <= i < names.len() && #[trigger] names[i] == name && !accepted[i],
        (forall|i: int| 0 <= i < accepted.len() ==> #[trigger] accepted[i]) ==> refused(
            names,
            accepted,
        ).len() == 0,
        (forall|i: int| 0 <= i < accepted.len() ==> !#[trigger] accepted[i]) ==> refused(
            names,
            accepted,
        ) == names,
    decreases names.len(),
{
    assert(names.push(name).drop_last() =~= names);
    assert(accepted.push(ok).drop_last() =~= accepted);
    if names.len() == 0 {
        assert(refused(names, accepted) =~= names);
    } else {
        let ns = names.drop_last();
        let acc = accepted.drop_last();
        law_refusals_are_judged_one_by_one(ns, acc, name, ok);
        let before = refused(ns, acc);
        let after = refused(names, accepted);
        assert(names[names.len() - 1] == names.last());
        assert(accepted[accepted.len() - 1] == accepted.last());
        if after.contains(name) {
            let k = choose|k: int| 0 <= k < after.len() && after[k] == name;
            if k < before.len() {
                assert(before[k] == name);
                let i = choose|i: int| 0 <= i < ns.len() && #[trigger] ns[i] == name && !acc[i];
                assert(names[i] == name && !accepted[i]);
            }
        }
        if exists|i: int| 0 <= i < names.len() && #[trigger] names[i] == name && !accepted[i] {
            let i = choose|i: int|
                0 <= i < names.len() && #[trigger] names[i] == name && !accepted[i];
            if i < ns.len() {
                assert(ns[i] == name && !acc[i]);
                let k = choose|k: int| 0 <= k < before.len() && before[k] == name;
                assert(after[k] == name);
            } else {
                assert(after[after.len() - 1] == name);
            }
        }
        if forall|i: int| 0 <= i < accepted.len() ==> #[trigger] accepted[i] {
            assert forall|i: int| 0 <= i < acc.len() implies #[trigger] acc[i] by {
                assert(accepted[i]);
            }
        }
        if forall|i: int| 0 <= i < accepted.len() ==> !#[trigger] accepted[i] {
            assert forall|i: int| 0 <= i < acc.len() implies !#[trigger] acc[i] by {
                assert(!accepted[i]);
            }
            assert(ns.push(names.last()) =~= names);
        }
    }
}

/// The list is in the order of its texts, from the first to the last.
pub proof fn law_list_is_in_order(s: Seq<Seq<char>>, i: int, j: int)
    requires
        ascending(s),
        0 <= i < j < s.len(),
    ensures
        text_less(s[i], s[j]),
        s[i] != s[j],
{
    law_names_are_unique(s);
}

} // verus!
