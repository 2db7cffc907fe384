//! Conversations: which responses a player may see, what choosing one
//! does to the custom flags of the player and the other party, and where
//! the dialog goes next.
use vstd::prelude::*;

use crate::text::{arg_value, TextArgs};

verus! {

/// A merchant that a choice opens, and the loot list that stocks it.
pub struct MerchantData {
    pub id: String,
    pub loot_list: String,
}

/// What viewing a node or choosing a response does: flags set on the
/// other party (`target_flags`) and on the player (`player_flags`), and a
/// merchant to show. As a visibility condition of a response, the same
/// flags must all be set.
pub struct OnSelect {
    pub target_flags: Option<Vec<String>>,
    pub player_flags: Option<Vec<String>>,
    pub show_merchant: Option<MerchantData>,
}

/// A response the player may give.
pub struct Response {
    pub text: String,
    pub to: Option<String>,
    pub on_select: Option<OnSelect>,
    pub to_view: Option<OnSelect>,
}

/// A node of a conversation: its text, what viewing it does, and its
/// responses.
pub struct ConversationNode {
    pub id: String,
    pub text: String,
    pub on_view: Option<OnSelect>,
    pub responses: Vec<Response>,
}

/// An optional list of flags, as plain values.
pub open spec fn opt_flags_view(flags: Option<Vec<String>>) -> Option<Seq<Seq<char>>> {
    match flags {
        Some(v) => Some(v.deep_view()),
        None => None,
    }
}

/// What an `OnSelect` holds, as plain values.
pub ghost struct OnSelectView {
    pub target_flags: Option<Seq<Seq<char>>>,
    pub player_flags: Option<Seq<Seq<char>>>,
    pub show_merchant: Option<MerchantData>,
}

impl View for OnSelect {
    type V = OnSelectView;

    open spec fn view(&self) -> OnSelectView {
        OnSelectView {
            target_flags: opt_flags_view(self.target_flags),
            player_flags: opt_flags_view(self.player_flags),
            show_merchant: self.show_merchant,
        }
    }
}

/// An optional `OnSelect`, as plain values.
pub open spec fn opt_on_select_view(o: Option<OnSelect>) -> Option<OnSelectView> {
    match o {
        Some(s) => Some(s@),
        None => None,
    }
}

/// The custom flags set on an entity.
pub struct CustomFlags {
    flags: Vec<String>,
}

impl View for CustomFlags {
    type V = Set<Seq<char>>;

    closed spec fn view(&self) -> Set<Seq<char>> {
        self.flags.deep_view().to_set()
    }
}

/// A copy of a list of strings.
pub fn copy_strings(v: &Vec<String>) -> (r: Vec<String>)
    ensures
        r@ == v@,
{
    let mut out: Vec<String> = Vec::new();
    let n = v.len();
    let mut i: usize = 0;
    while i < n
        invariant
            n == v@.len(),
            i <= n,
            out@ == v@.take(i as int),
        decreases n - i,
    {
        out.push(v[i].clone());
        proof {
            assert(out@ =~= v@.take(i + 1));
        }
        i = i + 1;
    }
    proof {
        assert(v@.take(n as int) == v@);
    }
    out
}

/// A copy of an optional list of strings.
pub fn copy_opt_strings(v: &Option<Vec<String>>) -> (r: Option<Vec<String>>)
    ensures
        opt_flags_view(r) == opt_flags_view(*v),
{
    match v {
        Some(list) => {
            let c = copy_strings(list);
            proof {
                assert(c.deep_view() =~= list.deep_view());
            }
            Some(c)
        },
        None => None,
    }
}

impl MerchantData {
    pub fn copy(&self) -> (r: MerchantData)
        ensures
            r == *self,
    {
        MerchantData { id: self.id.clone(), loot_list: self.loot_list.clone() }
    }
}

impl OnSelect {
    pub fn copy(&self) -> (r: OnSelect)
        ensures
            r@ == self@,
    {
        let merchant = match &self.show_merchant {
            Some(m) => Some(m.copy()),
            None => None,
        };
        OnSelect {
            target_flags: copy_opt_strings(&self.target_flags),
            player_flags: copy_opt_strings(&self.player_flags),
            show_merchant: merchant,
        }
    }
}

/// The flags of an optional list, as a set.
pub open spec fn flag_set(flags: Option<Seq<Seq<char>>>) -> Set<Seq<char>> {
    match flags {
        Some(v) => v.to_set(),
        None => Set::empty(),
    }
}

/// Whether every flag of an optional list is in `set`.
pub open spec fn all_flags_in(flags: Option<Seq<Seq<char>>>, set: Set<Seq<char>>) -> bool {
    flag_set(flags).subset_of(set)
}

/// Whether a response is shown to a player with flags `pc` speaking with
/// an entity with flags `target`: every flag its condition names must be
/// set on the one it names it for.
pub open spec fn spec_is_viewable(response: Response, pc: Set<Seq<char>>, target: Set<Seq<char>>) -> bool {
    match response.to_view {
        None => true,
        Some(cond) => all_flags_in(cond@.target_flags, target) && all_flags_in(cond@.player_flags, pc),
    }
}

impl CustomFlags {
    /// Holds no flag twice.
    #[verifier::type_invariant]
    spec fn no_flag_twice(&self) -> bool {
        self.flags.deep_view().no_duplicates()
    }

    /// No flags set.
    pub fn new() -> (f: CustomFlags)
        ensures
            f@ == Set::<Seq<char>>::empty(),
    {
        let f = CustomFlags { flags: Vec::new() };
        proof {
            assert(f@ =~= Set::<Seq<char>>::empty());
        }
        f
    }

    /// Whether `flag` is set.
    pub fn has_custom_flag(&self, flag: &String) -> (r: bool)
        ensures
            r == self@.contains(flag@),
    {
        let n = self.flags.len();
        let mut i: usize = 0;
        while i < n
            invariant
                n == self.flags@.len(),
                i <= n,
                forall|j: int| 0 <= j < i ==> self.flags.deep_view()[j] != flag@,
            decreases n - i,
        {
            if self.flags[i] == *flag {
                proof {
                    assert(self.flags.deep_view()[i as int] == flag@);
                }
                return true;
            }
            i = i + 1;
        }
        proof {
            assert(!self.flags.deep_view().contains(flag@));
        }
        false
    }

    /// Sets `flag`.
    pub fn set_custom_flag(&mut self, flag: &String)
        ensures
            final(self)@ == old(self)@.insert(flag@),
    {
        if self.has_custom_flag(flag) {
            proof {
                assert(old(self)@.contains(flag@));
                assert(self@ =~= old(self)@.insert(flag@));
            }
            return;
        }
        proof {
            use_type_invariant(&*self);
        }
        let ghost before = self.flags.deep_view();
        let added = flag.clone();
        let mut flags: Vec<String> = Vec::new();
        std::mem::swap(&mut flags, &mut self.flags);
        flags.push(added);
        proof {
            assert(flags.deep_view() =~= before.push(flag@));
        }
        self.flags = flags;
        proof {
            assert(self.flags.deep_view() =~= before.push(flag@));
            before.lemma_push_to_set_commute(flag@);
            assert(self@ =~= old(self)@.insert(flag@));
        }
    }

    /// One text argument "true" per flag that is set.
    pub fn flag_args(&self) -> (args: TextArgs)
        ensures
            forall|name: Seq<char>| #[trigger] arg_value(args@, name) == if self@.contains(name) {
                Some("true"@)
            } else {
                None
            },
    {
        let mut args = TextArgs::new();
        let n = self.flags.len();
        let mut i: usize = 0;
        while i < n
            invariant
                n == self.flags@.len(),
                i <= n,
                args@ == flag_args(self.flags.deep_view().take(i as int)),
            decreases n - i,
        {
            args.add_text_arg(self.flags[i].as_str(), "true");
            proof {
                assert(args@ =~= flag_args(self.flags.deep_view().take(i + 1)));
            }
            i = i + 1;
        }
        proof {
            assert(self.flags.deep_view().take(n as int) == self.flags.deep_view());
            assert forall|name: Seq<char>| #[trigger] arg_value(args@, name) == if self@.contains(name) {
                Some("true"@)
            } else {
                None
            } by {
                lemma_flag_args(self.flags.deep_view(), name);
            }
        }
        args
    }

    /// Sets every flag of an optional list.
    pub fn set_flags(&mut self, flags: &Option<Vec<String>>)
        ensures
            final(self)@ == old(self)@.union(flag_set(opt_flags_view(*flags))),
    {
        match flags {
            None => {
                proof {
                    assert(self@ =~= old(self)@.union(flag_set(opt_flags_view(*flags))));
                }
            },
            Some(list) => {
                let n = list.len();
                let mut i: usize = 0;
                while i < n
                    invariant
                        n == list@.len(),
                        i <= n,
                        self@ == old(self)@.union(list.deep_view().take(i as int).to_set()),
                    decreases n - i,
                {
                    self.set_custom_flag(&list[i]);
                    proof {
                        assert(list.deep_view().take(i + 1) == list.deep_view().take(i as int).push(list@[i as int]@));
                        list.deep_view().take(i as int).lemma_push_to_set_commute(list@[i as int]@);
                        assert(self@ =~= old(self)@.union(list.deep_view().take(i + 1).to_set()));
                    }
                    i = i + 1;
                }
                proof {
                    assert(list.deep_view().take(n as int) == list.deep_view());
                }
            },
        }
    }

    /// Whether every flag of an optional list is set.
    pub fn has_all(&self, flags: &Option<Vec<String>>) -> (r: bool)
        ensures
            r == all_flags_in(opt_flags_view(*flags), self@),
    {
        match flags {
            None => {
                proof {
                    assert(flag_set(opt_flags_view(*flags)) =~= Set::<Seq<char>>::empty());
                }
                true
            },
            Some(list) => {
                let n = list.len();
                let mut i: usize = 0;
                while i < n
                    invariant
                        n == list@.len(),
                        i <= n,
                        forall|j: int| 0 <= j < i ==> self@.contains(#[trigger] list.deep_view()[j]),
                        opt_flags_view(*flags) == Some(list.deep_view()),
                    decreases n - i,
                {
                    if !self.has_custom_flag(&list[i]) {
                        proof {
                            assert(list.deep_view()[i as int] == list@[i as int]@);
                            let x = list.deep_view()[i as int];
                            assert(list.deep_view().to_set().contains(x));
                            assert(opt_flags_view(*flags) == Some(list.deep_view()));
                            assert(flag_set(opt_flags_view(*flags)).contains(x));
                            assert(!self@.contains(x));
                        }
                        return false;
                    }
                    i = i + 1;
                }
                proof {
                    assert forall|f: Seq<char>| list.deep_view().to_set().contains(f) implies self@.contains(f) by {
                        let j = choose|j: int| 0 <= j < list.deep_view().len() && list.deep_view()[j] == f;
                    }
                }
                true
            },
        }
    }
}

/// Whether `response` is shown to the player `pc` speaking with `target`.
pub fn is_viewable(response: &Response, pc: &CustomFlags, target: &CustomFlags) -> (r: bool)
    ensures
        r == spec_is_viewable(*response, pc@, target@),
{
    match &response.to_view {
        None => true,
        Some(cond) => {
            if !target.has_all(&cond.target_flags) {
                return false;
            }
            if !pc.has_all(&cond.player_flags) {
                return false;
            }
            true
        },
    }
}

/// Does what `on_select` says: sets its target flags on `target` and its
/// player flags on `pc`, and gives the merchant to show, if any.
pub fn activate(on_select: &OnSelect, pc: &mut CustomFlags, target: &mut CustomFlags) -> (merchant: Option<MerchantData>)
    ensures
        final(target)@ == old(target)@.union(flag_set(on_select@.target_flags)),
        final(pc)@ == old(pc)@.union(flag_set(on_select@.player_flags)),
        merchant == on_select.show_merchant,
{
    target.set_flags(&on_select.target_flags);
    pc.set_flags(&on_select.player_flags);
    match &on_select.show_merchant {
        Some(m) => Some(m.copy()),
        None => None,
    }
}

/// Once a choice has been made, a response whose visibility condition is
/// that same choice is shown.
pub proof fn lemma_activate_makes_viewable(response: Response, pc: Set<Seq<char>>, target: Set<Seq<char>>)
    requires
        response.to_view is Some,
    ensures
        spec_is_viewable(
            response,
            pc.union(flag_set(response.to_view->0@.player_flags)),
            target.union(flag_set(response.to_view->0@.target_flags)),
        ),
{
}

/// Setting more flags never hides a response that was shown.
pub proof fn lemma_viewable_monotone(response: Response, pc: Set<Seq<char>>, target: Set<Seq<char>>, more_pc: Set<Seq<char>>, more_target: Set<Seq<char>>)
    requires
        spec_is_viewable(response, pc, target),
    ensures
        spec_is_viewable(response, pc.union(more_pc), target.union(more_target)),
{
}

/// A response button: the response's text, where it leads and what
/// choosing it does.
pub struct ResponseButton {
    pub text: String,
    pub to: Option<String>,
    pub on_select: Option<OnSelect>,
}

impl ResponseButton {
    /// The button for `response`.
    pub fn new(response: &Response) -> (b: ResponseButton)
        ensures
            b.text == response.text,
            b.to == response.to,
            opt_on_select_view(b.on_select) == opt_on_select_view(response.on_select),
    {
        let to = match &response.to {
            Some(t) => Some(t.clone()),
            None => None,
        };
        let on_select = match &response.on_select {
            Some(s) => Some(s.copy()),
            None => None,
        };
        ResponseButton { text: response.text.clone(), to, on_select }
    }
}


/// Whether `b` is the button of `r`.
pub open spec fn button_made(r: Response, b: ResponseButton) -> bool {
    &&& b.text == r.text
    &&& b.to == r.to
    &&& opt_on_select_view(b.on_select) == opt_on_select_view(r.on_select)
}

/// The responses among `rs` shown to `pc` speaking with `target`, in order.
pub open spec fn visible_responses(rs: Seq<Response>, pc: Set<Seq<char>>, target: Set<Seq<char>>) -> Seq<Response>
    decreases rs.len(),
{
    if rs.len() == 0 {
        Seq::empty()
    } else {
        let init = visible_responses(rs.drop_last(), pc, target);
        if spec_is_viewable(rs.last(), pc, target) {
            init.push(rs.last())
        } else {
            init
        }
    }
}

/// The responses shown are exactly those that are viewable, in order:
/// whether one is shown depends on it alone, not on the others.
pub proof fn lemma_visible_responses(rs: Seq<Response>, pc: Set<Seq<char>>, target: Set<Seq<char>>)
    ensures
        visible_responses(rs, pc, target) == rs.filter(|r: Response| spec_is_viewable(r, pc, target)),
    decreases rs.len(),
{
    let pred = |r: Response| spec_is_viewable(r, pc, target);
    reveal_with_fuel(Seq::filter, 1);
    if rs.len() > 0 {
        lemma_visible_responses(rs.drop_last(), pc, target);
        assert(rs.filter(pred) == if pred(rs.last()) {
            rs.drop_last().filter(pred).push(rs.last())
        } else {
            rs.drop_last().filter(pred)
        });
    } else {
        assert(rs.filter(pred) == rs);
        assert(rs =~= Seq::<Response>::empty());
    }
}

/// The buttons of the responses among `responses` shown to `pc` speaking
/// with `target`, in order.
pub fn response_buttons(responses: &Vec<Response>, pc: &CustomFlags, target: &CustomFlags) -> (r: Vec<ResponseButton>)
    ensures
        r@.len() == visible_responses(responses@, pc@, target@).len(),
        forall|i: int| 0 <= i < r@.len()
            ==> button_made(#[trigger] visible_responses(responses@, pc@, target@)[i], r@[i]),
        r@.len() == responses@.filter(|x: Response| spec_is_viewable(x, pc@, target@)).len(),
        forall|i: int| 0 <= i < r@.len()
            ==> button_made(responses@.filter(|x: Response| spec_is_viewable(x, pc@, target@))[i], #[trigger] r@[i]),
{
    let mut out: Vec<ResponseButton> = Vec::new();
    let n = responses.len();
    let mut i: usize = 0;
    while i < n
        invariant
            n == responses@.len(),
            i <= n,
            out@.len() == visible_responses(responses@.take(i as int), pc@, target@).len(),
            forall|j: int| 0 <= j < out@.len()
                ==> button_made(#[trigger] visible_responses(responses@.take(i as int), pc@, target@)[j], out@[j]),
        decreases n - i,
    {
        proof {
            assert(responses@.take(i + 1).drop_last() == responses@.take(i as int));
            assert(responses@.take(i + 1).last() == responses@[i as int]);
        }
        if is_viewable(&responses[i], pc, target) {
            out.push(ResponseButton::new(&responses[i]));
        }
        proof {
            let prev = visible_responses(responses@.take(i as int), pc@, target@);
            let next = visible_responses(responses@.take(i + 1), pc@, target@);
            assert forall|j: int| 0 <= j < out@.len() implies button_made(#[trigger] next[j], out@[j]) by {
                if j < prev.len() {
                    assert(next[j] == prev[j]);
                }
            }
        }
        i = i + 1;
    }
    proof {
        assert(responses@.take(n as int) == responses@);
        lemma_visible_responses(responses@, pc@, target@);
    }
    out
}

/// A dialog between the player and another entity: the node it is on,
/// and whether it is still open.
pub struct DialogWindow {
    pub cur_node: String,
    pub open: bool,
}

/// What a dialog window shows on a node: the node's text, the merchant
/// that viewing the node opens, and the buttons of the shown responses.
pub struct DialogView {
    pub title: TextArgs,
    pub node_args: TextArgs,
    pub text: String,
    pub merchant: Option<MerchantData>,
    pub responses: Vec<ResponseButton>,
}

/// One argument "true" per flag.
pub open spec fn flag_args(flags: Seq<Seq<char>>) -> Seq<(Seq<char>, Seq<char>)> {
    Seq::new(flags.len(), |i: int| (flags[i], "true"@))
}

/// Reading a flag's name from its arguments gives "true" exactly where the
/// flag is among them.
pub proof fn lemma_flag_args(flags: Seq<Seq<char>>, name: Seq<char>)
    ensures
        arg_value(flag_args(flags), name) == if flags.contains(name) {
            Some("true"@)
        } else {
            None
        },
    decreases flags.len(),
{
    if flags.len() > 0 {
        let init = flags.drop_last();
        lemma_flag_args(init, name);
        assert(flag_args(flags).drop_last() =~= flag_args(init));
        if flags.last() != name {
            if flags.contains(name) {
                let w = choose|w: int| 0 <= w < flags.len() && flags[w] == name;
                assert(init[w] == name);
            }
            if init.contains(name) {
                let w = choose|w: int| 0 <= w < init.len() && init[w] == name;
                assert(flags[w] == name);
            }
        } else {
            assert(flags[flags.len() - 1] == name);
        }
    }
}

impl DialogWindow {
    /// An open dialog on the conversation's initial node.
    pub fn new(initial_node: String) -> (w: DialogWindow)
        ensures
            w.cur_node == initial_node,
            w.open,
    {
        DialogWindow { cur_node: initial_node, open: true }
    }

    /// Shows `node` of a dialog with the entity named `entity_name`: its
    /// title names the entity, the node's text gets one argument per flag
    /// the entity has; then viewing the node does what it does, and the
    /// buttons are those of the responses shown with the flags as they now
    /// are.
    pub fn on_add(&self, entity_name: &str, node: &ConversationNode, pc: &mut CustomFlags, entity: &mut CustomFlags) -> (v: DialogView)
        ensures
            match node.on_view {
                Some(s) => {
                    &&& final(entity)@ == old(entity)@.union(flag_set(s@.target_flags))
                    &&& final(pc)@ == old(pc)@.union(flag_set(s@.player_flags))
                    &&& v.merchant == s.show_merchant
                },
                None => final(entity)@ == old(entity)@ && final(pc)@ == old(pc)@ && v.merchant is None,
            },
            v.title@ == seq![("name"@, entity_name@)],
            forall|name: Seq<char>| #[trigger] arg_value(v.node_args@, name) == if old(entity)@.contains(name) {
                Some("true"@)
            } else {
                None
            },
            v.text == node.text,
            v.responses@.len() == visible_responses(node.responses@, final(pc)@, final(entity)@).len(),
            forall|i: int| 0 <= i < v.responses@.len()
                ==> button_made(#[trigger] visible_responses(node.responses@, final(pc)@, final(entity)@)[i], v.responses@[i]),
            v.responses@.len() == node.responses@.filter(|x: Response| spec_is_viewable(x, final(pc)@, final(entity)@)).len(),
            forall|i: int| 0 <= i < v.responses@.len() ==> button_made(
                node.responses@.filter(|x: Response| spec_is_viewable(x, final(pc)@, final(entity)@))[i],
                #[trigger] v.responses@[i],
            ),
    {
        let mut title = TextArgs::new();
        title.add_text_arg("name", entity_name);
        proof {
            assert(title@ =~= seq![("name"@, entity_name@)]);
        }
        let node_args = entity.flag_args();
        let merchant = match &node.on_view {
            Some(on_select) => activate(on_select, pc, entity),
            None => None,
        };
        let responses = response_buttons(&node.responses, pc, entity);
        DialogView { title, node_args, text: node.text.clone(), merchant, responses }
    }
}

impl ResponseButton {
    /// Chooses this response: does what it does, then closes the dialog
    /// if the response leads nowhere, or moves it to the node it leads to.
    /// Gives the merchant to show, if any.
    pub fn on_mouse_release(&self, window: &mut DialogWindow, pc: &mut CustomFlags, entity: &mut CustomFlags) -> (merchant: Option<MerchantData>)
        ensures
            match self.on_select {
                Some(s) => {
                    &&& final(entity)@ == old(entity)@.union(flag_set(s@.target_flags))
                    &&& final(pc)@ == old(pc)@.union(flag_set(s@.player_flags))
                    &&& merchant == s.show_merchant
                },
                None => final(entity)@ == old(entity)@ && final(pc)@ == old(pc)@ && merchant is None,
            },
            match self.to {
                Some(to) => final(window).cur_node == to && final(window).open == old(window).open,
                None => final(window).cur_node == old(window).cur_node && !final(window).open,
            },
    {
        let merchant = match &self.on_select {
            Some(on_select) => activate(on_select, pc, entity),
            None => None,
        };
        match &self.to {
            None => {
                window.open = false;
            },
            Some(to) => {
                window.cur_node = to.clone();
            },
        }
        merchant
    }
}


/// A flag that has been set is then set, and setting it again changes
/// nothing.
pub proof fn lemma_set_flag_then_has(flags: Set<Seq<char>>, flag: Seq<char>)
    ensures
        flags.insert(flag).contains(flag),
        flags.insert(flag).insert(flag) == flags.insert(flag),
{
    assert(flags.insert(flag).insert(flag) =~= flags.insert(flag));
}

} // verus!
