//! Camera controls: what a device offers, by kind, and the value that each
//! control is set to.

use crate::selection::{lemma_selection_of_one, lemma_selection_step, positions};
use vstd::prelude::*;

verus! {

/// The kinds of control that can be adjusted, each with what its kind needs.
#[derive(Debug)]
pub enum ControlKind {
    /// A number between `minimum` and `maximum`, both excluded.
    Integer { minimum: i32, maximum: i32 },
    /// A switch: 1 when on, 0 when off.
    Boolean,
    /// One of the listed items.
    Menu { items: Vec<u32> },
    /// A kind that cannot be adjusted here.
    Other,
}

/// What a device says about one of its controls.
#[derive(Debug)]
pub struct ControlDescription {
    pub id: u32,
    pub name: String,
    pub kind: ControlKind,
    pub default: i32,
    pub read_only: bool,
    pub write_only: bool,
}

/// The value that a control is set to.
#[derive(Debug)]
pub struct CameraControl {
    pub id: u32,
    pub name: String,
    pub value: i32,
}

/// What the user did to a control.
#[derive(Clone, Copy, Debug, PartialEq, Eq, Structural)]
pub enum ControlInput {
    /// Moved the slider of an integer control to this value.
    Integer(i32),
    /// Set the switch of a boolean control.
    Boolean(bool),
    /// Chose the item at this position of a menu control.
    Menu(usize),
}

/// `value` as the unsigned number with the same 32 bits.
pub open spec fn as_unsigned(value: i32) -> int {
    if value >= 0 {
        value as int
    } else {
        value + 0x1_0000_0000
    }
}

/// `item` as the signed number with the same 32 bits.
pub open spec fn as_signed(item: u32) -> int {
    if item <= i32::MAX {
        item as int
    } else {
        item - 0x1_0000_0000
    }
}

/// Whether a control can be both read and written.
pub open spec fn adjustable(description: ControlDescription) -> bool {
    !description.read_only && !description.write_only
}

/// The least and the greatest value that an integer control between
/// `minimum` and `maximum` can be set to; `None` where there is no value
/// strictly between the two.
pub open spec fn integer_range(minimum: i32, maximum: i32) -> Option<(i32, i32)> {
    if minimum + 1 <= maximum - 1 {
        Some(((minimum + 1) as i32, (maximum - 1) as i32))
    } else {
        None
    }
}

/// The position of the first item of a menu that stands for `value`;
/// `None` where no item does.
pub open spec fn menu_position(items: Seq<u32>, value: i32) -> Option<int> {
    let position = first_position(items, as_unsigned(value), 0);
    if position < items.len() {
        Some(position)
    } else {
        None
    }
}

/// The first position at or after `from` where `items` holds `wanted`; the
/// length of `items` where there is none.
pub open spec fn first_position(items: Seq<u32>, wanted: int, from: int) -> int
    decreases items.len() - from,
{
    if from < 0 || from >= items.len() {
        items.len() as int
    } else if items[from] == wanted {
        from
    } else {
        first_position(items, wanted, from + 1)
    }
}

/// The value that a control of kind `kind` takes on `input`: the number,
/// limited to the control's range; 1 or 0 for a switch; the chosen item of a
/// menu.  `None` where the input does not fit the kind, the range is empty,
/// or the menu has no such item.
pub open spec fn input_value(kind: ControlKind, input: ControlInput) -> Option<i32> {
    match (kind, input) {
        (ControlKind::Integer { minimum, maximum }, ControlInput::Integer(value)) => {
            match integer_range(minimum, maximum) {
                Some((low, high)) => Some(
                    if value < low {
                        low
                    } else if value > high {
                        high
                    } else {
                        value
                    },
                ),
                None => None,
            }
        },
        (ControlKind::Boolean, ControlInput::Boolean(on)) => Some(
            if on {
                1i32
            } else {
                0i32
            },
        ),
        (ControlKind::Menu { items }, ControlInput::Menu(position)) => {
            if position < items.len() {
                Some(as_signed(items[position as int]) as i32)
            } else {
                None
            }
        },
        _ => None,
    }
}

/// The first position at or after `from` of a control with identifier `id`;
/// the number of controls where there is none.
pub open spec fn first_with_id(controls: Seq<CameraControl>, id: u32, from: int) -> int
    decreases controls.len() - from,
{
    if from < 0 || from >= controls.len() {
        controls.len() as int
    } else if controls[from].id == id {
        from
    } else {
        first_with_id(controls, id, from + 1)
    }
}

/// The first position at or after `from` of a description with identifier
/// `id`; the number of descriptions where there is none.
pub open spec fn first_described(descriptions: Seq<ControlDescription>, id: u32, from: int) -> int
    decreases descriptions.len() - from,
{
    if from < 0 || from >= descriptions.len() {
        descriptions.len() as int
    } else if descriptions[from].id == id {
        from
    } else {
        first_described(descriptions, id, from + 1)
    }
}

impl ControlDescription {
    /// Whether the control can be both read and written.  Only such
    /// controls are offered for adjustment.
    pub fn is_adjustable(&self) -> (b: bool)
        ensures
            b == adjustable(*self),
    {
        !self.read_only && !self.write_only
    }

    /// The value that the control takes on `input`.
    pub fn value_for(&self, input: ControlInput) -> (value: Option<i32>)
        ensures
            value == input_value(self.kind, input),
    {
        match (&self.kind, input) {
            (ControlKind::Integer { minimum, maximum }, ControlInput::Integer(value)) => {
                match slider_range(*minimum, *maximum) {
                    Some((low, high)) => Some(
                        if value < low {
                            low
                        } else if value > high {
                            high
                        } else {
                            value
                        },
                    ),
                    None => None,
                }
            },
            (ControlKind::Boolean, ControlInput::Boolean(on)) => Some(
                if on {
                    1
                } else {
                    0
                },
            ),
            (ControlKind::Menu { items }, ControlInput::Menu(position)) => {
                if position < items.len() {
                    let item: u32 = items[position];
                    if item <= i32::MAX as u32 {
                        Some(item as i32)
                    } else {
                        Some((item as i64 - 0x1_0000_0000) as i32)
                    }
                } else {
                    None
                }
            },
            _ => None,
        }
    }
}

/// The least and the greatest value that the slider of an integer control
/// between `minimum` and `maximum` offers.
pub fn slider_range(minimum: i32, maximum: i32) -> (range: Option<(i32, i32)>)
    ensures
        range == integer_range(minimum, maximum),
{
    if minimum as i64 + 1 <= maximum as i64 - 1 {
        Some((minimum + 1, maximum - 1))
    } else {
        None
    }
}

/// Whether the switch of a boolean control is on.
pub fn is_checked(value: i32) -> (on: bool)
    ensures
        on <==> value == 1,
{
    value == 1
}

/// The position of the first item of a menu that stands for `value`;
/// `None` where no item does.
pub fn menu_selection(items: &Vec<u32>, value: i32) -> (position: Option<usize>)
    ensures
        match position {
            Some(p) => menu_position(items@, value) == Some(p as int),
            None => menu_position(items@, value) is None,
        },
        position matches Some(p) ==> p < items.len() && items[p as int] == as_unsigned(value),
{
    let wanted: u32 = if value >= 0 {
        value as u32
    } else {
        (value as i64 + 0x1_0000_0000) as u32
    };
    let mut i: usize = 0;
    while i < items.len()
        invariant
            i <= items.len(),
            wanted == as_unsigned(value),
            forall|k: int| 0 <= k < i ==> items[k] != wanted,
            first_position(items@, wanted as int, 0) == first_position(
                items@,
                wanted as int,
                i as int,
            ),
        decreases items.len() - i,
    {
        if items[i] == wanted {
            return Some(i);
        }
        i += 1;
    }
    None
}

/// The position of the first control with identifier `id`.
pub fn find_control(controls: &Vec<CameraControl>, id: u32) -> (position: Option<usize>)
    ensures
        match position {
            Some(p) => p < controls.len() && p == first_with_id(controls@, id, 0)
                && controls[p as int].id == id,
            None => first_with_id(controls@, id, 0) == controls.len() && forall|k: int|
                0 <= k < controls.len() ==> controls[k].id != id,
        },
{
    let mut i: usize = 0;
    while i < controls.len()
        invariant
            i <= controls.len(),
            forall|k: int| 0 <= k < i ==> controls[k].id != id,
            first_with_id(controls@, id, 0) == first_with_id(controls@, id, i as int),
        decreases controls.len() - i,
    {
        if controls[i].id == id {
            return Some(i);
        }
        i += 1;
    }
    None
}

/// The position of the first description with identifier `id`.
pub fn find_description(descriptions: &Vec<ControlDescription>, id: u32) -> (position: Option<
    usize,
>)
    ensures
        match position {
            Some(p) => p < descriptions.len() && p == first_described(descriptions@, id, 0)
                && descriptions[p as int].id == id,
            None => first_described(descriptions@, id, 0) == descriptions.len(),
        },
{
    let mut i: usize = 0;
    while i < descriptions.len()
        invariant
            i <= descriptions.len(),
            first_described(descriptions@, id, 0) == first_described(
                descriptions@,
                id,
                i as int,
            ),
        decreases descriptions.len() - i,
    {
        if descriptions[i].id == id {
            return Some(i);
        }
        i += 1;
    }
    None
}

/// Whether the control at position `i` is taken over: it can be read and
/// written, and the device gave a plain value for it.
pub open spec fn taken_over(
    descriptions: Seq<ControlDescription>,
    values: Seq<Option<i32>>,
    i: int,
) -> bool {
    0 <= i < descriptions.len() && i < values.len() && adjustable(descriptions[i])
        && values[i] is Some
}

/// The control that is made of the description at position `i` and the
/// value that the device gave for it.
pub open spec fn control_at(
    descriptions: Seq<ControlDescription>,
    values: Seq<Option<i32>>,
    i: int,
) -> CameraControl {
    CameraControl {
        id: descriptions[i].id,
        name: descriptions[i].name,
        value: values[i].unwrap(),
    }
}

/// The controls that are offered for adjustment: one for each description,
/// in their order, that is taken over.
pub open spec fn offered_controls(
    descriptions: Seq<ControlDescription>,
    values: Seq<Option<i32>>,
) -> Seq<CameraControl> {
    positions(descriptions.len()).filter(|i: int| taken_over(descriptions, values, i)).map_values(
        |i: int| control_at(descriptions, values, i),
    )
}

/// Makes the list of controls that are offered for adjustment.
/// `values[i]` is the value that the device gave for the control that
/// `descriptions[i]` describes, or `None` where it gave none or one that is
/// no plain number.  A control is offered if it can be both read and
/// written and has a value.
pub fn controls_from_descriptions(
    descriptions: &Vec<ControlDescription>,
    values: &Vec<Option<i32>>,
) -> (controls: Vec<CameraControl>)
    ensures
        controls@ == offered_controls(descriptions@, values@),
{
    let ghost wanted = |i: int| taken_over(descriptions@, values@, i);
    let ghost made = |i: int| control_at(descriptions@, values@, i);
    let mut controls: Vec<CameraControl> = Vec::new();
    let mut i: usize = 0;
    proof {
        lemma_selection_of_one(0, wanted, 0);
        assert(positions(0).filter(wanted).map_values(made) =~= Seq::<CameraControl>::empty());
    }
    while i < descriptions.len()
        invariant
            i <= descriptions.len(),
            wanted == |i: int| taken_over(descriptions@, values@, i),
            made == |i: int| control_at(descriptions@, values@, i),
            controls@ == positions(i as nat).filter(wanted).map_values(made),
        decreases descriptions.len() - i,
    {
        proof {
            lemma_selection_step(i as nat, wanted);
        }
        if i < values.len() && descriptions[i].is_adjustable() {
            match values[i] {
                Some(value) => {
                    let ghost before = controls@;
                    controls.push(
                        CameraControl {
                            id: descriptions[i].id,
                            name: descriptions[i].name.clone(),
                            value,
                        },
                    );
                    assert(controls@ =~= before.push(made(i as int)));
                    assert(positions(i as nat).filter(wanted).push(i as int).map_values(made)
                        =~= positions(i as nat).filter(wanted).map_values(made).push(
                        made(i as int),
                    ));
                },
                None => {},
            }
        }
        i += 1;
    }
    controls
}

/// The value of a control after all controls were set back to their
/// defaults: the default of the first description with the control's
/// identifier; the control's own value where no description has it.
pub open spec fn default_value(
    descriptions: Seq<ControlDescription>,
    control: CameraControl,
) -> i32 {
    let position = first_described(descriptions, control.id, 0);
    if position < descriptions.len() {
        descriptions[position].default
    } else {
        control.value
    }
}

/// `controls` with the value of the control at `position` replaced by
/// `value`.
pub open spec fn with_value(controls: Seq<CameraControl>, position: int, value: i32) -> Seq<
    CameraControl,
> {
    controls.update(position, CameraControl { value, ..controls[position] })
}

/// `controls` with every value replaced by its [`default_value`].
pub open spec fn with_defaults(
    controls: Seq<CameraControl>,
    descriptions: Seq<ControlDescription>,
) -> Seq<CameraControl> {
    Seq::new(
        controls.len(),
        |k: int|
            CameraControl { value: default_value(descriptions, controls[k]), ..controls[k] },
    )
}

/// Sets every control that a description speaks of back to its default.
/// Identifiers, names and the order of the controls stay as they are.
pub fn reset_to_defaults(controls: &mut Vec<CameraControl>, descriptions: &Vec<ControlDescription>)
    ensures
        final(controls)@ == with_defaults(old(controls)@, descriptions@),
{
    let mut i: usize = 0;
    while i < controls.len()
        invariant
            i <= controls.len(),
            controls.len() == old(controls).len(),
            forall|k: int|
                0 <= k < i ==> controls[k] == with_defaults(old(controls)@, descriptions@)[k],
            forall|k: int| i <= k < controls.len() ==> controls[k] == old(controls)[k],
        decreases controls.len() - i,
    {
        match find_description(descriptions, controls[i].id) {
            Some(position) => {
                controls[i].value = descriptions[position].default;
            },
            None => {},
        }
        i += 1;
    }
    assert(controls@ =~= with_defaults(old(controls)@, descriptions@));
}

} // verus!
