//! A prescription: the records of the prescribed medicines in the order in
//! which they are listed, and the check of a record's required fields.

use vstd::prelude::*;
use vstd::string::*;
use crate::text::{collapse_whitespace, collapsed};

verus! {

/// One prescribed medicine.
#[derive(Debug)]
pub struct MedicineData {
    pub id: u64,
    pub brand_name: String,
    pub generic_name: String,
    pub strength: String,
    pub formulation: String,
    pub manufacturer: String,
    pub dosing: String,
    pub instructions: String,
    pub duration: String,
}

impl MedicineData {
    /// The record with the given identifier and fields.
    pub fn new(
        id: u64,
        brand_name: String,
        generic_name: String,
        strength: String,
        formulation: String,
        manufacturer: String,
        dosing: String,
        instructions: String,
        duration: String,
    ) -> (medicine: MedicineData)
        ensures
            medicine == (MedicineData {
                id,
                brand_name,
                generic_name,
                strength,
                formulation,
                manufacturer,
                dosing,
                instructions,
                duration,
            }),
    {
        MedicineData {
            id,
            brand_name,
            generic_name,
            strength,
            formulation,
            manufacturer,
            dosing,
            instructions,
            duration,
        }
    }
}

/// The place of the first row, at or after `from`, that has the identifier
/// `id`.
pub open spec fn row_from(rows: Seq<MedicineData>, id: u64, from: int) -> Option<int>
    decreases rows.len() - from,
{
    if from < 0 || from >= rows.len() {
        None
    } else if rows[from].id == id {
        Some(from)
    } else {
        row_from(rows, id, from + 1)
    }
}

/// The place of the first row that has the identifier `id`.
pub open spec fn row_of(rows: Seq<MedicineData>, id: u64) -> Option<int> {
    row_from(rows, id, 0)
}

/// The rows with those at the places `a` and `b` exchanged.
pub open spec fn exchanged(rows: Seq<MedicineData>, a: int, b: int) -> Seq<MedicineData> {
    rows.update(a, rows[b]).update(b, rows[a])
}

/// The row found for an identifier is the first one that has it; where
/// none is found, no row has it.
pub proof fn lemma_row_from(rows: Seq<MedicineData>, id: u64, from: int)
    requires
        0 <= from,
    ensures
        match row_from(rows, id, from) {
            Some(place) => {
                &&& from <= place < rows.len()
                &&& rows[place].id == id
                &&& forall|k: int| from <= k < place ==> (#[trigger] rows[k]).id != id
            },
            None => forall|k: int| from <= k < rows.len() ==> (#[trigger] rows[k]).id != id,
        },
    decreases rows.len() - from,
{
    if from < rows.len() && rows[from].id != id {
        lemma_row_from(rows, id, from + 1);
    }
}

/// The list of the prescribed medicines.
#[derive(Debug)]
pub struct MedicineBox {
    pub rows: Vec<MedicineData>,
}

impl MedicineBox {
    /// An empty list.
    pub fn new() -> (list: MedicineBox)
        ensures
            list.rows@.len() == 0,
    {
        MedicineBox { rows: Vec::new() }
    }

    /// Adds a record at the end of the list.
    pub fn append(&mut self, medicine_data: MedicineData)
        ensures
            final(self).rows@ == old(self).rows@.push(medicine_data),
    {
        self.rows.push(medicine_data);
    }

    /// The place of the first row with the identifier `id`.
    pub fn position(&self, id: u64) -> (place: Option<usize>)
        ensures
            match place {
                Some(place) => row_of(self.rows@, id) == Some(place as int) && place < self.rows@.len(),
                None => row_of(self.rows@, id) is None,
            },
    {
        let mut i: usize = 0;
        while i < self.rows.len()
            invariant
                i <= self.rows.len(),
                row_of(self.rows@, id) == row_from(self.rows@, id, i as int),
            decreases self.rows.len() - i,
        {
            if self.rows[i].id == id {
                return Some(i);
            }
            i += 1;
        }
        None
    }

    /// Removes the first row with the identifier `id`; without such a row
    /// the list stays as it is.
    pub fn delete(&mut self, id: u64)
        ensures
            final(self).rows@ == match row_of(old(self).rows@, id) {
                Some(place) => old(self).rows@.remove(place),
                None => old(self).rows@,
            },
    {
        if let Some(place) = self.position(id) {
            let _ = self.rows.remove(place);
        }
    }

    /// Moves the first row with the identifier `id` one place up; the first
    /// row of the list, and a list without such a row, stay as they are.
    pub fn move_up(&mut self, id: u64)
        ensures
            final(self).rows@ == match row_of(old(self).rows@, id) {
                Some(place) => if place > 0 {
                    exchanged(old(self).rows@, place, place - 1)
                } else {
                    old(self).rows@
                },
                None => old(self).rows@,
            },
    {
        if let Some(place) = self.position(id) {
            if place > 0 {
                let ghost before = self.rows@;
                let row = self.rows.remove(place);
                self.rows.insert(place - 1, row);
                assert(self.rows@ =~= exchanged(before, place as int, place - 1));
            }
        }
    }

    /// Moves the first row with the identifier `id` one place down; the
    /// last row of the list, and a list without such a row, stay as they
    /// are.
    pub fn move_down(&mut self, id: u64)
        ensures
            final(self).rows@ == match row_of(old(self).rows@, id) {
                Some(place) => if place + 1 < old(self).rows@.len() {
                    exchanged(old(self).rows@, place, place + 1)
                } else {
                    old(self).rows@
                },
                None => old(self).rows@,
            },
    {
        if let Some(place) = self.position(id) {
            let len = self.rows.len();
            if place + 1 < len {
                let ghost before = self.rows@;
                let row = self.rows.remove(place);
                self.rows.insert(place + 1, row);
                assert(self.rows@ =~= exchanged(before, place as int, place + 1));
            }
        }
    }
}

/// The texts of a list of strings, in order.
pub open spec fn texts(items: Seq<String>) -> Seq<Seq<char>> {
    items.map_values(|item: String| item@)
}

/// The first `n` of `items`, separated by commas.
pub open spec fn enumeration(items: Seq<Seq<char>>, n: int) -> Seq<char>
    decreases n,
{
    if n <= 1 {
        items[0]
    } else {
        enumeration(items, n - 1) + ", "@ + items[n - 1]
    }
}

/// The message that names the required fields which are empty: none for no
/// field, `A is required` for one, `A, B and C are required` for more.
pub open spec fn required_message(items: Seq<Seq<char>>) -> Option<Seq<char>> {
    if items.len() == 0 {
        None
    } else if items.len() == 1 {
        Some(items[0] + " is required"@)
    } else {
        Some(enumeration(items, items.len() - 1) + " and "@ + items.last() + " are required"@)
    }
}

/// The labels of those of the four required fields that are empty, in the
/// order brand name, strength, formulation, dosing.
pub open spec fn empty_fields(
    brand_name: Seq<char>,
    strength: Seq<char>,
    formulation: Seq<char>,
    dosing: Seq<char>,
) -> Seq<Seq<char>> {
    (if brand_name.len() == 0 {
        seq!["BRAND NAME"@]
    } else {
        Seq::empty()
    }) + (if strength.len() == 0 {
        seq!["STRENGTH"@]
    } else {
        Seq::empty()
    }) + (if formulation.len() == 0 {
        seq!["FORMULATION"@]
    } else {
        Seq::empty()
    }) + (if dosing.len() == 0 {
        seq!["DOSING"@]
    } else {
        Seq::empty()
    })
}

/// The message that names the given fields as required and empty.
pub fn describe_required(empty_items: &Vec<String>) -> (message: Option<String>)
    ensures
        match required_message(texts(empty_items@)) {
            Some(text) => message is Some && message->0@ == text,
            None => message is None,
        },
{
    let ghost items = texts(empty_items@);
    if empty_items.len() == 0 {
        return None;
    }
    assert(items[0] == empty_items@[0]@);
    let mut message = empty_items[0].clone();
    if empty_items.len() == 1 {
        message.append(" is required");
        return Some(message);
    }
    let mut i: usize = 1;
    while i < empty_items.len() - 1
        invariant
            1 <= i <= empty_items.len() - 1,
            items == texts(empty_items@),
            message@ == enumeration(items, i as int),
        decreases empty_items.len() - i,
    {
        message.append(", ");
        message.append(empty_items[i].as_str());
        assert(items[i as int] == empty_items@[i as int]@);
        i += 1;
    }
    let last = empty_items.len() - 1;
    assert(items.last() == empty_items@[last as int]@);
    message.append(" and ");
    message.append(empty_items[last].as_str());
    message.append(" are required");
    Some(message)
}

/// Checks the fields that a record must have: the message that names the
/// empty ones, `None` where all four are filled in.
pub fn validation_errors(brand_name: &str, strength: &str, formulation: &str, dosing: &str) -> (message: Option<String>)
    ensures
        match required_message(empty_fields(brand_name@, strength@, formulation@, dosing@)) {
            Some(text) => message is Some && message->0@ == text,
            None => message is None,
        },
        message is None <==> brand_name@.len() > 0 && strength@.len() > 0 && formulation@.len() > 0
            && dosing@.len() > 0,
{
    let mut empty_items: Vec<String> = Vec::new();
    assert(texts(empty_items@) =~= Seq::<Seq<char>>::empty());
    if brand_name.is_empty() {
        empty_items.push(String::from_str("BRAND NAME"));
    }
    if strength.is_empty() {
        empty_items.push(String::from_str("STRENGTH"));
    }
    if formulation.is_empty() {
        empty_items.push(String::from_str("FORMULATION"));
    }
    if dosing.is_empty() {
        empty_items.push(String::from_str("DOSING"));
    }
    assert(texts(empty_items@) =~= empty_fields(brand_name@, strength@, formulation@, dosing@));
    describe_required(&empty_items)
}

impl MedicineBox {
    /// Adds the medicine that was filled in, with the identifier `id`: the
    /// brand name is taken with its white space collapsed, and the record is
    /// added at the end of the list where brand name, strength, formulation
    /// and dosing are all filled in. Otherwise the list stays as it is and
    /// the message that names the empty fields is returned.
    pub fn add(
        &mut self,
        id: u64,
        brand_name: &str,
        generic_name: String,
        strength: String,
        formulation: String,
        manufacturer: String,
        dosing: String,
        instructions: String,
        duration: String,
    ) -> (result: Result<(), String>)
        ensures
            match required_message(
                empty_fields(collapsed(brand_name@), strength@, formulation@, dosing@),
            ) {
                Some(text) => result is Err && result->Err_0@ == text && final(self).rows@ == old(
                    self,
                ).rows@,
                None => {
                    &&& result is Ok
                    &&& final(self).rows@.len() == old(self).rows@.len() + 1
                    &&& final(self).rows@.drop_last() == old(self).rows@
                    &&& final(self).rows@.last().id == id
                    &&& final(self).rows@.last().brand_name@ == collapsed(brand_name@)
                    &&& final(self).rows@.last().generic_name == generic_name
                    &&& final(self).rows@.last().strength == strength
                    &&& final(self).rows@.last().formulation == formulation
                    &&& final(self).rows@.last().manufacturer == manufacturer
                    &&& final(self).rows@.last().dosing == dosing
                    &&& final(self).rows@.last().instructions == instructions
                    &&& final(self).rows@.last().duration == duration
                },
            },
    {
        let brand_name = collapse_whitespace(brand_name);
        match validation_errors(
            brand_name.as_str(),
            strength.as_str(),
            formulation.as_str(),
            dosing.as_str(),
        ) {
            Some(message) => Err(message),
            None => {
                let ghost before = self.rows@;
                self.append(
                    MedicineData::new(
                        id,
                        brand_name,
                        generic_name,
                        strength,
                        formulation,
                        manufacturer,
                        dosing,
                        instructions,
                        duration,
                    ),
                );
                assert(self.rows@.drop_last() =~= before);
                Ok(())
            },
        }
    }
}

} // verus!
