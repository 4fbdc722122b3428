use vstd::prelude::*;

use crate::panel::{
    captured_spec, frame_spec, initial_model, pass_spec, released_spec, resize_spec, Effect,
    GrabInput, PanelController, PanelModel, PassTicket,
};
use crate::registry::{
    insert_spec, lemma_insert, lemma_position, lemma_remove, lemma_update_value, lookup, position,
    remove_spec, unique_ids, Registry,
};

verus! {

/// The abstract state of a panel handler: the panels, each with its
/// controller's model and its resources, and the acceptors.
pub ghost struct HandlerModel<H, R> {
    pub items: Seq<(String, (PanelModel, R))>,
    pub acceptors: Seq<(String, H)>,
}

/// An item entry seen through its controller's model.
pub open spec fn model_of<R>(e: (String, (PanelController, R))) -> (String, (PanelModel, R)) {
    (e.0, (e.1.0@, e.1.1))
}

/// All item entries seen through their controllers' models.
pub open spec fn models<R>(s: Seq<(String, (PanelController, R))>) -> Seq<
    (String, (PanelModel, R)),
> {
    s.map_values(|e: (String, (PanelController, R))| model_of(e))
}

/// The items after the panel at `i` takes the model `m`.
pub open spec fn with_model<R>(items: Seq<(String, (PanelModel, R))>, i: int, m: PanelModel) -> Seq<
    (String, (PanelModel, R)),
> {
    items.update(i, (items[i].0, (m, items[i].1.1)))
}

/// One step of the panel with the given id, if there is one; the other panels
/// are left alone, and an unknown id changes nothing.
pub open spec fn step_item<R>(
    items: Seq<(String, (PanelModel, R))>,
    id: Seq<char>,
    step: spec_fn(PanelModel) -> (PanelModel, Seq<Effect>),
) -> (Seq<(String, (PanelModel, R))>, Seq<Effect>) {
    match position(items, id) {
        Some(i) => (with_model(items, i, step(items[i].1.0).0), step(items[i].1.0).1),
        None => (items, seq![]),
    }
}

/// The panels after one frame, each with its own grab input.
pub open spec fn frame_items<R>(items: Seq<(String, (PanelModel, R))>, inputs: Seq<GrabInput>) -> Seq<
    (String, (PanelModel, R)),
> {
    Seq::new(
        items.len(),
        |i: int| (items[i].0, (frame_spec(items[i].1.0, inputs[i]).0, items[i].1.1)),
    )
}

/// The sampling passes that one frame hands out, one per panel.
pub open spec fn frame_tickets<R>(
    items: Seq<(String, (PanelModel, R))>,
    inputs: Seq<GrabInput>,
) -> Seq<Option<PassTicket>> {
    Seq::new(items.len(), |i: int| frame_spec(items[i].1.0, inputs[i]).1)
}

/// Seeing entries through their models keeps ids and positions.
proof fn lemma_models<R>(s: Seq<(String, (PanelController, R))>, id: Seq<char>)
    requires
        unique_ids(s),
    ensures
        unique_ids(models(s)),
        position(models(s), id) == position(s, id),
{
    let t = models(s);
    assert forall|a: int, b: int|
        0 <= a < t.len() && 0 <= b < t.len() && a != b implies (#[trigger] t[a]).0@ != (
    #[trigger] t[b]).0@ by {
        assert(t[a].0 == s[a].0 && t[b].0 == s[b].0);
    }
    match position(s, id) {
        Some(i) => {
            assert(t[i].0 == s[i].0);
            lemma_position(s, i);
            lemma_position(t, i);
        },
        None => {
            if exists|j: int| 0 <= j < t.len() && (#[trigger] t[j]).0@ == id {
                let j = choose|j: int| 0 <= j < t.len() && (#[trigger] t[j]).0@ == id;
                assert(t[j].0 == s[j].0);
            }
        },
    }
}

/// Once a panel is destroyed, a pass of it that finishes afterwards is a
/// no-op: no entry is left under its id, nothing changes and nothing is done.
pub proof fn lemma_destroyed_pass_is_noop<R>(
    items: Seq<(String, (PanelModel, R))>,
    id: Seq<char>,
    t: PassTicket,
    ids: Seq<String>,
    replies: Seq<Option<u32>>,
)
    requires
        unique_ids(items),
    ensures
        position(remove_spec(items, id), id) is None,
        step_item(remove_spec(items, id), id, |m: PanelModel| pass_spec(m, t, ids, replies)) == (
            remove_spec(items, id),
            Seq::<Effect>::empty(),
        ),
{
    lemma_remove(items, id);
}

/// Reporting the same toplevel size twice leaves the panels as reporting it
/// once.
pub proof fn lemma_size_change_idempotent<R>(
    items: Seq<(String, (PanelModel, R))>,
    id: Seq<char>,
    width: u32,
    height: u32,
)
    requires
        unique_ids(items),
    ensures
        ({
            let resize = |m: PanelModel| (resize_spec(m, width, height), Seq::<Effect>::empty());
            step_item(step_item(items, id, resize).0, id, resize).0 == step_item(items, id, resize).0
        }),
{
    let resize = |m: PanelModel| (resize_spec(m, width, height), Seq::<Effect>::empty());
    match position(items, id) {
        Some(i) => {
            let once = step_item(items, id, resize).0;
            lemma_position(items, i);
            lemma_update_value(items, i, (resize_spec(items[i].1.0, width, height), items[i].1.1));
            lemma_position(once, i);
            assert(step_item(once, id, resize).0 =~= once);
        },
        None => {},
    }
}

/// A lifecycle notification from the engine, for one panel or acceptor.
pub enum Notification<H, R> {
    ItemCreated { id: String, width: u32, height: u32, resources: R },
    ItemCaptured { id: String, acceptor: String },
    ItemReleased { id: String },
    ItemDestroyed { id: String },
    ToplevelSizeChanged { id: String, width: u32, height: u32 },
    AcceptorCreated { id: String, acceptor: H },
    AcceptorDestroyed { id: String },
}

/// The state after a notification, and what it asks of the panel.
pub open spec fn notification_spec<H, R>(m: HandlerModel<H, R>, n: Notification<H, R>) -> (
    HandlerModel<H, R>,
    Seq<Effect>,
) {
    match n {
        Notification::ItemCreated { id, width, height, resources } => (
            HandlerModel {
                items: insert_spec(m.items, id, (initial_model(width, height), resources)),
                ..m
            },
            seq![],
        ),
        Notification::ItemCaptured { id, acceptor } => {
            let s = step_item(m.items, id@, |p: PanelModel| captured_spec(p, acceptor));
            (HandlerModel { items: s.0, ..m }, s.1)
        },
        Notification::ItemReleased { id } => {
            let s = step_item(m.items, id@, |p: PanelModel| released_spec(p));
            (HandlerModel { items: s.0, ..m }, s.1)
        },
        Notification::ItemDestroyed { id } => (
            HandlerModel { items: remove_spec(m.items, id@), ..m },
            seq![],
        ),
        Notification::ToplevelSizeChanged { id, width, height } => (
            HandlerModel {
                items: step_item(
                    m.items,
                    id@,
                    |p: PanelModel| (resize_spec(p, width, height), Seq::<Effect>::empty()),
                ).0,
                ..m
            },
            seq![],
        ),
        Notification::AcceptorCreated { id, acceptor } => (
            HandlerModel { acceptors: insert_spec(m.acceptors, id, acceptor), ..m },
            seq![],
        ),
        Notification::AcceptorDestroyed { id } => (
            HandlerModel { acceptors: remove_spec(m.acceptors, id@), ..m },
            seq![],
        ),
    }
}

/// Routes lifecycle notifications, frames and finished sampling passes to
/// the docking controller of each panel, and keeps the acceptors.
///
/// `H` is what is kept of an acceptor (its capture and proximity handles),
/// `R` what is kept of a panel besides its controller.
pub struct PanelItemUIHandler<H, R> {
    items: Registry<(PanelController, R)>,
    acceptors: Registry<H>,
}

impl<H, R> View for PanelItemUIHandler<H, R> {
    type V = HandlerModel<H, R>;

    closed spec fn view(&self) -> HandlerModel<H, R> {
        HandlerModel { items: models(self.items@), acceptors: self.acceptors@ }
    }
}

impl<H, R> PanelItemUIHandler<H, R> {
    pub closed spec fn wf(&self) -> bool {
        self.items.wf() && self.acceptors.wf()
    }

    pub fn new() -> (r: Self)
        ensures
            r@.items == Seq::<(String, (PanelModel, R))>::empty(),
            r@.acceptors == Seq::<(String, H)>::empty(),
            r.wf(),
    {
        let r = PanelItemUIHandler { items: Registry::new(), acceptors: Registry::new() };
        assert(models(r.items@) =~= Seq::<(String, (PanelModel, R))>::empty());
        r
    }

    /// Ids are unique in both registries.
    pub proof fn lemma_unique_ids(&self)
        requires
            self.wf(),
        ensures
            unique_ids(self@.items),
            unique_ids(self@.acceptors),
    {
        lemma_models(self.items@, Seq::empty());
    }

    /// The acceptors, in order of arrival.
    pub fn acceptors(&self) -> (r: &Registry<H>)
        requires
            self.wf(),
        ensures
            r@ == self@.acceptors,
            r.wf(),
    {
        &self.acceptors
    }

    /// The ids of the panels, in the order in which frames visit them.
    pub fn item_ids(&self) -> (r: Vec<String>)
        ensures
            r@.len() == self@.items.len(),
            forall|i: int| 0 <= i < r@.len() ==> r@[i] == (#[trigger] self@.items[i]).0,
    {
        self.items.ids()
    }

    /// The resources of the panel with the given id.
    pub fn resources(&self, id: &String) -> (r: Option<&R>)
        requires
            self.wf(),
        ensures
            r is None <==> position(self@.items, id@) is None,
            r matches Some(v) ==> *v == self@.items[position(self@.items, id@)->0].1.1,
    {
        proof {
            lemma_models(self.items@, id@);
        }
        match self.items.get(id) {
            Some(e) => Some(&e.1),
            None => None,
        }
    }

    /// The controller of the panel with the given id.
    pub fn controller(&self, id: &String) -> (r: Option<&PanelController>)
        requires
            self.wf(),
        ensures
            r is None <==> position(self@.items, id@) is None,
            r matches Some(c) ==> c@ == self@.items[position(self@.items, id@)->0].1.0,
    {
        proof {
            lemma_models(self.items@, id@);
        }
        match self.items.get(id) {
            Some(e) => Some(&e.0),
            None => None,
        }
    }

    /// A panel was created with the given initial toplevel size; returns the
    /// resources of the panel it replaces, if the id was known.
    pub fn item_created(&mut self, id: String, width: u32, height: u32, resources: R) -> (r: Option<R>)
        requires
            old(self).wf(),
        ensures
            final(self)@.items == insert_spec(old(self)@.items, id, (initial_model(width, height), resources)),
            final(self)@.acceptors == old(self)@.acceptors,
            r is None <==> position(old(self)@.items, id@) is None,
            r matches Some(v) ==> v == old(self)@.items[position(old(self)@.items, id@)->0].1.1,
            final(self).wf(),
    {
        let ghost s = self.items@;
        let c = PanelController::new(width, height);
        let ghost entry = (c, resources);
        proof {
            lemma_models(s, id@);
            lemma_insert(s, id, entry);
        }
        let prev = self.items.insert(id, (c, resources));
        proof {
            let t = self.items@;
            lemma_models(t, id@);
            match position(s, id@) {
                Some(i) => {
                    assert(models(t) =~= insert_spec(models(s), id, (initial_model(width, height), resources)));
                },
                None => {
                    assert(models(t) =~= insert_spec(models(s), id, (initial_model(width, height), resources)));
                },
            }
        }
        match prev {
            Some(e) => Some(e.1),
            None => None,
        }
    }

    /// The panel with the given id was destroyed; returns its resources.
    pub fn item_destroyed(&mut self, id: &String) -> (r: Option<R>)
        requires
            old(self).wf(),
        ensures
            final(self)@.items == remove_spec(old(self)@.items, id@),
            final(self)@.acceptors == old(self)@.acceptors,
            r is None <==> position(old(self)@.items, id@) is None,
            r matches Some(v) ==> v == old(self)@.items[position(old(self)@.items, id@)->0].1.1,
            final(self).wf(),
    {
        let ghost s = self.items@;
        proof {
            lemma_models(s, id@);
            lemma_remove(s, id@);
        }
        let prev = self.items.remove(id);
        proof {
            let t = self.items@;
            match position(s, id@) {
                Some(i) => {
                    assert(models(t) =~= remove_spec(models(s), id@));
                },
                None => {
                    assert(models(t) =~= remove_spec(models(s), id@));
                },
            }
        }
        match prev {
            Some(e) => Some(e.1),
            None => None,
        }
    }

    /// The panel with the given id was captured by the given acceptor.
    pub fn item_captured(&mut self, id: &String, acceptor: String) -> (r: Vec<Effect>)
        requires
            old(self).wf(),
        ensures
            (final(self)@.items, r@) == step_item(
                old(self)@.items,
                id@,
                |m: PanelModel| captured_spec(m, acceptor),
            ),
            final(self)@.acceptors == old(self)@.acceptors,
            final(self).wf(),
    {
        proof {
            lemma_models(self.items@, id@);
        }
        match self.items.find(id) {
            Some(i) => self.controller_at(i).captured(acceptor),
            None => Vec::new(),
        }
    }

    /// The panel with the given id was released by its acceptor.
    pub fn item_released(&mut self, id: &String) -> (r: Vec<Effect>)
        requires
            old(self).wf(),
        ensures
            (final(self)@.items, r@) == step_item(
                old(self)@.items,
                id@,
                |m: PanelModel| released_spec(m),
            ),
            final(self)@.acceptors == old(self)@.acceptors,
            final(self).wf(),
    {
        proof {
            lemma_models(self.items@, id@);
        }
        match self.items.find(id) {
            Some(i) => self.controller_at(i).released(),
            None => Vec::new(),
        }
    }

    /// The toplevel of the panel with the given id has a new size, in pixels;
    /// returns whether the panel is known.
    pub fn toplevel_size_changed(&mut self, id: &String, width: u32, height: u32) -> (r: bool)
        requires
            old(self).wf(),
        ensures
            final(self)@.items == step_item(
                old(self)@.items,
                id@,
                |m: PanelModel| (resize_spec(m, width, height), Seq::<Effect>::empty()),
            ).0,
            final(self)@.acceptors == old(self)@.acceptors,
            r == position(old(self)@.items, id@) is Some,
            final(self).wf(),
    {
        proof {
            lemma_models(self.items@, id@);
        }
        match self.items.find(id) {
            Some(i) => {
                self.controller_at(i).on_resize(width, height);
                true
            },
            None => false,
        }
    }

    /// A sampling pass of the panel with the given id finished, with one reply
    /// per acceptor id it queried; a panel that is gone ignores it.
    pub fn pass_completed(
        &mut self,
        id: &String,
        t: PassTicket,
        ids: &Vec<String>,
        replies: &Vec<Option<u32>>,
    ) -> (r: Vec<Effect>)
        requires
            old(self).wf(),
            ids.len() == replies.len(),
        ensures
            (final(self)@.items, r@) == step_item(
                old(self)@.items,
                id@,
                |m: PanelModel| pass_spec(m, t, ids@, replies@),
            ),
            final(self)@.acceptors == old(self)@.acceptors,
            final(self).wf(),
    {
        proof {
            lemma_models(self.items@, id@);
        }
        match self.items.find(id) {
            Some(i) => self.controller_at(i).complete_pass(t, ids, replies),
            None => Vec::new(),
        }
    }

    /// Runs one frame on every panel, in order, each with its grab input;
    /// returns the sampling pass each one starts.
    pub fn frame(&mut self, inputs: &Vec<GrabInput>) -> (r: Vec<Option<PassTicket>>)
        requires
            old(self).wf(),
            inputs.len() == old(self)@.items.len(),
        ensures
            final(self)@.items == frame_items(old(self)@.items, inputs@),
            r@ == frame_tickets(old(self)@.items, inputs@),
            final(self)@.acceptors == old(self)@.acceptors,
            final(self).wf(),
    {
        let mut r: Vec<Option<PassTicket>> = Vec::new();
        let mut i: usize = 0;
        while i < inputs.len()
            invariant
                self.wf(),
                i <= inputs.len(),
                inputs.len() == old(self)@.items.len(),
                self@.items.len() == old(self)@.items.len(),
                self@.acceptors == old(self)@.acceptors,
                r@.len() == i,
                forall|j: int|
                    0 <= j < i ==> self@.items[j] == #[trigger] frame_items(
                        old(self)@.items,
                        inputs@,
                    )[j],
                forall|j: int| 0 <= j < i ==> r@[j] == #[trigger] frame_tickets(
                        old(self)@.items,
                        inputs@,
                    )[j],
                forall|j: int| i <= j < inputs.len() ==> self@.items[j] == old(self)@.items[j],
            decreases inputs.len() - i,
        {
            let t = self.controller_at(i).frame(inputs[i]);
            r.push(t);
            i += 1;
        }
        assert(self@.items =~= frame_items(old(self)@.items, inputs@));
        assert(r@ =~= frame_tickets(old(self)@.items, inputs@));
        r
    }

    /// An acceptor arrived; returns what was kept under its id before.
    pub fn acceptor_created(&mut self, id: String, acceptor: H) -> (r: Option<H>)
        requires
            old(self).wf(),
        ensures
            final(self)@.acceptors == insert_spec(old(self)@.acceptors, id, acceptor),
            r == lookup(old(self)@.acceptors, id@),
            final(self)@.items == old(self)@.items,
            final(self).wf(),
    {
        self.acceptors.insert(id, acceptor)
    }

    /// An acceptor left; returns what was kept under its id.
    pub fn acceptor_destroyed(&mut self, id: &String) -> (r: Option<H>)
        requires
            old(self).wf(),
        ensures
            final(self)@.acceptors == remove_spec(old(self)@.acceptors, id@),
            r == lookup(old(self)@.acceptors, id@),
            final(self)@.items == old(self)@.items,
            final(self).wf(),
    {
        self.acceptors.remove(id)
    }

    /// Handles one lifecycle notification; returns what it asks of the panel.
    pub fn handle(&mut self, n: Notification<H, R>) -> (r: Vec<Effect>)
        requires
            old(self).wf(),
        ensures
            (final(self)@, r@) == notification_spec(old(self)@, n),
            final(self).wf(),
    {
        match n {
            Notification::ItemCreated { id, width, height, resources } => {
                self.item_created(id, width, height, resources);
                Vec::new()
            },
            Notification::ItemCaptured { id, acceptor } => self.item_captured(&id, acceptor),
            Notification::ItemReleased { id } => self.item_released(&id),
            Notification::ItemDestroyed { id } => {
                self.item_destroyed(&id);
                Vec::new()
            },
            Notification::ToplevelSizeChanged { id, width, height } => {
                self.toplevel_size_changed(&id, width, height);
                Vec::new()
            },
            Notification::AcceptorCreated { id, acceptor } => {
                self.acceptor_created(id, acceptor);
                Vec::new()
            },
            Notification::AcceptorDestroyed { id } => {
                self.acceptor_destroyed(&id);
                Vec::new()
            },
        }
    }

    /// The controller at position `i`, to be changed in place.
    fn controller_at(&mut self, i: usize) -> (r: &mut PanelController)
        requires
            old(self).wf(),
            i < old(self)@.items.len(),
        ensures
            r@ == old(self)@.items[i as int].1.0,
            final(self)@.acceptors == old(self)@.acceptors,
            final(self)@.items == with_model(old(self)@.items, i as int, final(r)@),
            final(self).wf(),
    {
        let ghost s = self.items@;
        let e = self.items.value_mut_at(i);
        assert(models(s.update(i as int, (s[i as int].0, *e))) =~= with_model(
            models(s),
            i as int,
            e.0@,
        ));
        &mut e.0
    }
}

} // verus!
