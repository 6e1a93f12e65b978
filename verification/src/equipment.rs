//! Wearing equipment: one piece per slot.

use vstd::prelude::*;
use vstd::string::StringExecFns;
use crate::color::{white, yellow};
use crate::entity::{views, Equipment, Object, ObjectView, Slot};
use crate::messages::{Line, Messages};

verus! {

/// The text of an object as `{:?}` prints it.
pub uninterp spec fn debug_text(object: ObjectView) -> Seq<char>;

/// Formats an object with `{:?}`.
///
/// Calls `std::format!`, which prints the object through the `Debug` that
/// `derive` gives it: every field by its name and value, and nothing else.
/// The contract claims no more than that: the text depends on nothing but
/// the object's view.
#[verifier::external_body]
pub(crate) fn describe(object: &Object) -> (text: String)
    ensures
        text@ == debug_text(object@),
{
    format!("{:?}", object)
}

/// The object wears something on `slot`.
pub open spec fn wears(object: ObjectView, slot: Slot) -> bool {
    object.equipment matches Some(e) && e.equipped && e.slot == slot
}

/// The place of the first object from `from` on that wears something on
/// `slot`.
pub open spec fn first_wearing(inventory: Seq<ObjectView>, slot: Slot, from: int) -> Option<int>
    decreases inventory.len() - from,
{
    if from >= inventory.len() {
        None
    } else if wears(inventory[from], slot) {
        Some(from)
    } else {
        first_wearing(inventory, slot, from + 1)
    }
}

/// The place in the inventory of what is worn on `slot`, if anything is.
pub open spec fn occupant(inventory: Seq<ObjectView>, slot: Slot) -> Option<int> {
    first_wearing(inventory, slot, 0)
}

/// No two objects of the inventory are worn on the same slot.
pub open spec fn one_per_slot(inventory: Seq<ObjectView>) -> bool {
    forall|i: int, j: int, slot: Slot|
        0 <= i < j < inventory.len() && #[trigger] wears(inventory[i], slot) ==> !#[trigger] wears(
            inventory[j],
            slot,
        )
}

/// What is logged when something that is no item is to be put on.
pub open spec fn text_equip_no_item(object: ObjectView) -> Seq<char> {
    "Can't equip "@ + debug_text(object) + " because it is not an Item"@
}

/// What is logged when something that is no equipment is to be put on.
pub open spec fn text_equip_no_equipment(object: ObjectView) -> Seq<char> {
    "Cant equip "@ + debug_text(object) + " because it is not an Equipment"@
}

/// What is logged when equipment is put on.
pub open spec fn text_equipped(name: Seq<char>, slot: Slot) -> Seq<char> {
    "Equipped "@ + name + " on "@ + slot.label()
}

/// What is logged when something that is no item is to be taken off.
pub open spec fn text_dequip_no_item(object: ObjectView) -> Seq<char> {
    "Can't dequip "@ + debug_text(object) + " because it is not an Item"@
}

/// What is logged when something that is no equipment is to be taken off.
pub open spec fn text_dequip_no_equipment(object: ObjectView) -> Seq<char> {
    "Cant deequip "@ + debug_text(object) + " because it is not an Equipment"@
}

/// What is logged when equipment is taken off.
pub open spec fn text_dequipped(name: Seq<char>, slot: Slot) -> Seq<char> {
    "Dequipped "@ + name + " from slot "@ + slot.label()
}

/// The object with its equipment worn or not.
pub open spec fn with_worn(object: ObjectView, equipped: bool) -> ObjectView {
    match object.equipment {
        Some(e) => ObjectView { equipment: Some(Equipment { equipped, ..e }), ..object },
        None => object,
    }
}

/// Putting an object on: the object afterwards, and what is logged.
pub open spec fn put_on(object: ObjectView) -> (ObjectView, Seq<Line>) {
    if object.item is None {
        (object, seq![(text_equip_no_item(object), white())])
    } else {
        match object.equipment {
            Some(e) => if !e.equipped {
                (with_worn(object, true), seq![(text_equipped(object.name, e.slot), yellow())])
            } else {
                (object, Seq::empty())
            },
            None => (object, seq![(text_equip_no_equipment(object), white())]),
        }
    }
}

/// Taking an object off: the object afterwards, and what is logged.
pub open spec fn taken_off(object: ObjectView) -> (ObjectView, Seq<Line>) {
    if object.item is None {
        (object, seq![(text_dequip_no_item(object), white())])
    } else {
        match object.equipment {
            Some(e) => if e.equipped {
                (with_worn(object, false), seq![(text_dequipped(object.name, e.slot), yellow())])
            } else {
                (object, Seq::empty())
            },
            None => (object, seq![(text_dequip_no_equipment(object), white())]),
        }
    }
}

fn framed(before: &str, object: &Object, after: &str) -> (text: String)
    ensures
        text@ == before@ + debug_text(object@) + after@,
{
    let mut text = String::from_str(before);
    text.append(describe(object).as_str());
    text.append(after);
    text
}

fn joined(before: &str, name: &str, between: &str, slot: Slot) -> (text: String)
    ensures
        text@ == before@ + name@ + between@ + slot.label(),
{
    let mut text = String::from_str(before);
    text.append(name);
    text.append(between);
    text.append(slot.name());
    text
}

/// The place in the inventory of what is worn on `slot`, if anything is.
pub fn get_equipped_in_slot(slot: Slot, inventory: &[Object]) -> (found: Option<usize>)
    ensures
        match found {
            Some(id) => id < inventory.len() && occupant(views(inventory@), slot) == Some(
                id as int,
            ),
            None => occupant(views(inventory@), slot) is None,
        },
{
    let mut id: usize = 0;
    while id < inventory.len()
        invariant
            id <= inventory.len(),
            occupant(views(inventory@), slot) == first_wearing(views(inventory@), slot, id as int),
        decreases inventory.len() - id,
    {
        let hit = match inventory[id].equipment {
            Some(e) => e.equipped && e.slot == slot,
            None => false,
        };
        assert(hit == wears(views(inventory@)[id as int], slot));
        if hit {
            return Some(id);
        }
        id = id + 1;
    }
    None
}

impl Object {
    /// Puts the object on, if it is equipment and not yet worn.
    pub fn equip(&mut self, messages: &mut Messages)
        ensures
            final(self)@ == put_on(old(self)@).0,
            final(messages)@ == old(messages)@ + put_on(old(self)@).1,
    {
        if self.item.is_none() {
            let text = framed("Can't equip ", self, " because it is not an Item");
            messages.add(text.as_str(), white());
            assert(messages@ =~= old(messages)@ + put_on(old(self)@).1);
            return ;
        }
        match self.equipment {
            Some(e) => {
                if !e.equipped {
                    let mut worn = e;
                    worn.equipped = true;
                    self.equipment = Some(worn);
                    let text = joined("Equipped ", self.name.as_str(), " on ", e.slot);
                    messages.add(text.as_str(), yellow());
                }
            },
            None => {
                let text = framed("Cant equip ", self, " because it is not an Equipment");
                messages.add(text.as_str(), white());
            },
        }
        assert(messages@ =~= old(messages)@ + put_on(old(self)@).1);
    }

    /// Takes the object off, if it is equipment and worn.
    pub fn dequip(&mut self, messages: &mut Messages)
        ensures
            final(self)@ == taken_off(old(self)@).0,
            final(messages)@ == old(messages)@ + taken_off(old(self)@).1,
    {
        if self.item.is_none() {
            let text = framed("Can't dequip ", self, " because it is not an Item");
            messages.add(text.as_str(), white());
            assert(messages@ =~= old(messages)@ + taken_off(old(self)@).1);
            return ;
        }
        match self.equipment {
            Some(e) => {
                if e.equipped {
                    let mut worn = e;
                    worn.equipped = false;
                    self.equipment = Some(worn);
                    let text = joined("Dequipped ", self.name.as_str(), " from slot ", e.slot);
                    messages.add(text.as_str(), yellow());
                }
            },
            None => {
                let text = framed("Cant deequip ", self, " because it is not an Equipment");
                messages.add(text.as_str(), white());
            },
        }
        assert(messages@ =~= old(messages)@ + taken_off(old(self)@).1);
    }
}

} // verus!
