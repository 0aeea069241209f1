//! Field tables of the SEG-Y headers, by revision.
//!
//! A revision is described by a document. A base document lists every
//! field; a later revision extends a parent document and patches it: sizes
//! replace, added fields are appended, and overrides replace the field of
//! the same key in place or are appended when there is none.

use std::collections::HashMap;
use vstd::prelude::*;
use vstd::string::StringExecFns;

verus! {

/// Name of the document of revision 0, the base.
pub const REV0_SPEC: &'static str = "segy_rev0_spec.json";

/// Name of the document of revision 1.
pub const REV1_SPEC: &'static str = "segy_rev1_spec.json";

/// Name of the document of revision 2.
pub const REV2_SPEC: &'static str = "segy_rev2_spec.json";

/// Name of the document of revision 2.1.
pub const REV21_SPEC: &'static str = "segy_rev21_spec.json";

/// How many documents a document may extend, one after the other. With four
/// documents a longer chain runs in a circle.
pub const MAX_SPEC_DEPTH: usize = 4;

/// One row of a field table.
#[derive(Debug)]
pub struct HeaderFieldSpec {
    /// Label for display.
    pub name: String,
    /// Stable key of the field.
    pub field_key: String,
    /// First byte of the field, 1-based from the file start, inclusive.
    pub byte_start: u16,
    /// Last byte of the field, 1-based from the file start, inclusive.
    pub byte_end: u16,
    /// Type tag of the field, such as int16 or int32.
    pub data_type: String,
    /// Description of the field.
    pub description: String,
    /// Whether the revision requires the field.
    pub required: bool,
    /// Labels of coded values, if the field is coded.
    pub code_mapping: Option<HashMap<String, String>>,
}

/// What a row of a field table says.
pub struct FieldView {
    /// Label for display.
    pub name: Seq<char>,
    /// Stable key of the field.
    pub field_key: Seq<char>,
    /// First byte of the field.
    pub byte_start: u16,
    /// Last byte of the field.
    pub byte_end: u16,
    /// Type tag of the field.
    pub data_type: Seq<char>,
    /// Description of the field.
    pub description: Seq<char>,
    /// Whether the revision requires the field.
    pub required: bool,
    /// Labels of coded values, if the field is coded.
    pub code_mapping: Option<Map<String, String>>,
}

impl View for HeaderFieldSpec {
    type V = FieldView;

    open spec fn view(&self) -> FieldView {
        FieldView {
            name: self.name@,
            field_key: self.field_key@,
            byte_start: self.byte_start,
            byte_end: self.byte_end,
            data_type: self.data_type@,
            description: self.description@,
            required: self.required,
            code_mapping: match self.code_mapping {
                Some(mapping) => Some(mapping@),
                None => None,
            },
        }
    }
}

impl HeaderFieldSpec {
    /// A copy of the row.
    pub fn clone(&self) -> (copy: HeaderFieldSpec)
        ensures
            copy@ == self@,
    {
        HeaderFieldSpec {
            name: self.name.clone(),
            field_key: self.field_key.clone(),
            byte_start: self.byte_start,
            byte_end: self.byte_end,
            data_type: self.data_type.clone(),
            description: self.description.clone(),
            required: self.required,
            code_mapping: match &self.code_mapping {
                Some(mapping) => Some(mapping.clone()),
                None => None,
            },
        }
    }
}

/// What the rows of a field table say, row by row.
pub open spec fn field_views(fields: Seq<HeaderFieldSpec>) -> Seq<FieldView> {
    Seq::new(fields.len(), |i: int| fields[i]@)
}

/// What an optional list of rows says; no list says nothing.
pub open spec fn optional_views(fields: Option<Vec<HeaderFieldSpec>>) -> Seq<FieldView> {
    match fields {
        Some(rows) => field_views(rows@),
        None => Seq::empty(),
    }
}

/// Index of the first row with the given key, if there is one.
pub open spec fn position_of_key(fields: Seq<FieldView>, key: Seq<char>) -> Option<int>
    decreases fields.len(),
{
    if fields.len() == 0 {
        None
    } else {
        match position_of_key(fields.drop_last(), key) {
            Some(i) => Some(i),
            None => if fields.last().field_key == key {
                Some(fields.len() - 1)
            } else {
                None
            },
        }
    }
}

/// A table after one override: the first row of the same key is replaced in
/// place; without such a row the override is appended.
pub open spec fn overridden(fields: Seq<FieldView>, field: FieldView) -> Seq<FieldView> {
    match position_of_key(fields, field.field_key) {
        Some(i) => fields.update(i, field),
        None => fields.push(field),
    }
}

/// A table after a list of overrides, applied in their order.
pub open spec fn overridden_all(fields: Seq<FieldView>, overrides: Seq<FieldView>) -> Seq<
    FieldView,
>
    decreases overrides.len(),
{
    if overrides.len() == 0 {
        fields
    } else {
        overridden(overridden_all(fields, overrides.drop_last()), overrides.last())
    }
}

/// A table after a patch: the added rows are appended, then the overrides
/// are applied.
pub open spec fn patched_fields(
    fields: Seq<FieldView>,
    added: Option<Vec<HeaderFieldSpec>>,
    overrides: Option<Vec<HeaderFieldSpec>>,
) -> Seq<FieldView> {
    overridden_all(fields + optional_views(added), optional_views(overrides))
}

/// A size after a patch: the patch's size if it has one.
pub open spec fn patched_size(size: usize, patch: Option<usize>) -> usize {
    match patch {
        Some(replacement) => replacement,
        None => size,
    }
}

/// Where a key is found, a row of that key stands, and no earlier row has
/// it; where it is not found, no row has it.
pub proof fn lemma_position_of_key(fields: Seq<FieldView>, key: Seq<char>)
    ensures
        match position_of_key(fields, key) {
            Some(i) => 0 <= i < fields.len() && fields[i].field_key == key && forall|j: int|
                0 <= j < i ==> (#[trigger] fields[j]).field_key != key,
            None => forall|j: int| 0 <= j < fields.len() ==> (#[trigger] fields[j]).field_key != key,
        },
    decreases fields.len(),
{
    if fields.len() > 0 {
        lemma_position_of_key(fields.drop_last(), key);
        assert forall|j: int| 0 <= j < fields.len() - 1 implies fields.drop_last()[j]
            == fields[j] by {}
        match position_of_key(fields.drop_last(), key) {
            Some(i) => {
                assert(fields.drop_last()[i] == fields[i]);
                assert forall|j: int| 0 <= j < i implies (#[trigger] fields[j]).field_key
                    != key by {
                    assert(fields.drop_last()[j] == fields[j]);
                }
            },
            None => {
                assert forall|j: int| 0 <= j < fields.len() - 1 implies (#[trigger] fields[j]).field_key
                    != key by {
                    assert(fields.drop_last()[j] == fields[j]);
                }
            },
        }
    }
}

/// An override shows in the table and leaves every other row as it was: a
/// row of its key is replaced where it stood and the table keeps its
/// length; without such a row the override is appended.
pub proof fn lemma_override_is_local(fields: Seq<FieldView>, field: FieldView)
    ensures
        match position_of_key(fields, field.field_key) {
            Some(i) => {
                &&& overridden(fields, field).len() == fields.len()
                &&& overridden(fields, field)[i] == field
                &&& forall|j: int|
                    0 <= j < fields.len() && j != i ==> #[trigger] overridden(fields, field)[j]
                        == fields[j]
            },
            None => {
                &&& overridden(fields, field).len() == fields.len() + 1
                &&& overridden(fields, field).last() == field
                &&& forall|j: int|
                    0 <= j < fields.len() ==> #[trigger] overridden(fields, field)[j] == fields[j]
            },
        },
{
    lemma_position_of_key(fields, field.field_key);
}

/// Whether one of a list of overrides has the given key.
pub open spec fn overrides_key(overrides: Seq<FieldView>, key: Seq<char>) -> bool {
    exists|k: int| 0 <= k < overrides.len() && (#[trigger] overrides[k]).field_key == key
}

/// A list of overrides leaves alone what it does not mention: the table
/// does not get shorter, and every row whose key no override has stays
/// where it was, as it was.
pub proof fn lemma_overrides_keep_the_rest(fields: Seq<FieldView>, overrides: Seq<FieldView>)
    ensures
        overridden_all(fields, overrides).len() >= fields.len(),
        forall|j: int|
            0 <= j < fields.len() && !overrides_key(overrides, (#[trigger] fields[j]).field_key)
                ==> overridden_all(fields, overrides)[j] == fields[j],
    decreases overrides.len(),
{
    if overrides.len() > 0 {
        let earlier = overrides.drop_last();
        let before = overridden_all(fields, earlier);
        lemma_overrides_keep_the_rest(fields, earlier);
        lemma_override_is_local(before, overrides.last());
        lemma_position_of_key(before, overrides.last().field_key);
        assert forall|j: int|
            0 <= j < fields.len() && !overrides_key(
                overrides,
                (#[trigger] fields[j]).field_key,
            ) implies overridden_all(fields, overrides)[j] == fields[j] by {
            assert(overrides[overrides.len() - 1].field_key != fields[j].field_key);
            if overrides_key(earlier, fields[j].field_key) {
                let k = choose|k: int|
                    0 <= k < earlier.len() && (#[trigger] earlier[k]).field_key
                        == fields[j].field_key;
                assert(overrides[k] == earlier[k]);
            }
            assert(before[j] == fields[j]);
        }
    }
}

/// Whether a table starts with the keys of another, row by row.
pub open spec fn keeps_keys(later: Seq<FieldView>, earlier: Seq<FieldView>) -> bool {
    &&& later.len() >= earlier.len()
    &&& forall|j: int|
        0 <= j < earlier.len() ==> (#[trigger] later[j]).field_key == earlier[j].field_key
}

/// Overrides never move a key: the table after them starts with the keys
/// it had.
pub proof fn lemma_overrides_keep_keys(fields: Seq<FieldView>, overrides: Seq<FieldView>)
    ensures
        keeps_keys(overridden_all(fields, overrides), fields),
    decreases overrides.len(),
{
    if overrides.len() > 0 {
        let before = overridden_all(fields, overrides.drop_last());
        lemma_overrides_keep_keys(fields, overrides.drop_last());
        lemma_override_is_local(before, overrides.last());
        lemma_position_of_key(before, overrides.last().field_key);
        let after = overridden(before, overrides.last());
        assert forall|j: int| 0 <= j < fields.len() implies (#[trigger] after[j]).field_key
            == fields[j].field_key by {
            assert(before[j].field_key == fields[j].field_key);
        }
    }
}

/// A key that a table has is found at the same place in any table that
/// starts with the same keys.
pub proof fn lemma_position_follows_keys(
    earlier: Seq<FieldView>,
    later: Seq<FieldView>,
    key: Seq<char>,
)
    requires
        keeps_keys(later, earlier),
        position_of_key(earlier, key) is Some,
    ensures
        position_of_key(later, key) == position_of_key(earlier, key),
{
    lemma_position_of_key(earlier, key);
    lemma_position_of_key(later, key);
    let at = position_of_key(earlier, key)->Some_0;
    assert(later[at].field_key == key);
    match position_of_key(later, key) {
        Some(found) => {
            if found < at {
                assert(later[found].field_key == earlier[found].field_key);
            }
        },
        None => {},
    }
}

/// The last override of a key stands in the table: its row is the first
/// of its key, and it stands where the table had a row of that key, if it
/// had one.
pub proof fn lemma_last_override_stands(
    fields: Seq<FieldView>,
    overrides: Seq<FieldView>,
    k: int,
)
    requires
        0 <= k < overrides.len(),
        forall|m: int|
            k < m < overrides.len() ==> (#[trigger] overrides[m]).field_key
                != overrides[k].field_key,
    ensures
        position_of_key(overridden_all(fields, overrides), overrides[k].field_key) is Some,
        overridden_all(fields, overrides)[position_of_key(
            overridden_all(fields, overrides),
            overrides[k].field_key,
        )->Some_0] == overrides[k],
        position_of_key(fields, overrides[k].field_key) is Some ==> position_of_key(
            overridden_all(fields, overrides),
            overrides[k].field_key,
        ) == position_of_key(fields, overrides[k].field_key),
    decreases overrides.len(),
{
    let key = overrides[k].field_key;
    let earlier = overrides.drop_last();
    let last = overrides.last();
    let before = overridden_all(fields, earlier);
    let after = overridden_all(fields, overrides);
    assert(after == overridden(before, last));
    lemma_override_is_local(before, last);
    lemma_position_of_key(before, last.field_key);
    lemma_overrides_keep_keys(fields, overrides);
    if position_of_key(fields, key) is Some {
        lemma_position_follows_keys(fields, after, key);
    }
    if k == overrides.len() - 1 {
        match position_of_key(before, key) {
            Some(at) => {
                assert(keeps_keys(after, before)) by {
                    assert forall|j: int| 0 <= j < before.len() implies (#[trigger] after[j]).field_key
                        == before[j].field_key by {}
                }
                lemma_position_follows_keys(before, after, key);
            },
            None => {
                assert(after.drop_last() == before);
            },
        }
    } else {
        assert(earlier[k] == overrides[k]);
        assert forall|m: int| k < m < earlier.len() implies (#[trigger] earlier[m]).field_key
            != earlier[k].field_key by {
            assert(earlier[m] == overrides[m]);
        }
        lemma_last_override_stands(fields, earlier, k);
        let at = position_of_key(before, key)->Some_0;
        lemma_position_of_key(before, key);
        assert(overrides[overrides.len() - 1].field_key != key);
        assert(keeps_keys(after, before)) by {
            assert forall|j: int| 0 <= j < before.len() implies (#[trigger] after[j]).field_key
                == before[j].field_key by {}
        }
        lemma_position_follows_keys(before, after, key);
        assert(after[at] == before[at]);
    }
}

/// Field table of the binary header.
#[derive(Debug)]
pub struct BinaryHeaderSpec {
    /// Size of the header in bytes.
    pub size: usize,
    /// Byte offset of the header in the file.
    pub byte_offset: usize,
    /// The fields.
    pub fields: Vec<HeaderFieldSpec>,
}

/// Field table of the trace header.
#[derive(Debug)]
pub struct TraceHeaderSpec {
    /// Size of the header in bytes.
    pub size: usize,
    /// The fields.
    pub fields: Vec<HeaderFieldSpec>,
}

/// What a document says of the binary header. A base document says all but
/// the overrides; a patch says what it changes.
#[derive(Debug)]
pub struct BinaryHeaderPatch {
    /// Size of the header in bytes.
    pub size: Option<usize>,
    /// Byte offset of the header in the file.
    pub byte_offset: Option<usize>,
    /// Fields: all of them in a base document, the added ones in a patch.
    pub fields: Option<Vec<HeaderFieldSpec>>,
    /// Fields that replace the parent's field of the same key.
    pub overrides: Option<Vec<HeaderFieldSpec>>,
}

/// What a document says of the trace header.
#[derive(Debug)]
pub struct TraceHeaderPatch {
    /// Size of the header in bytes.
    pub size: Option<usize>,
    /// Fields: all of them in a base document, the added ones in a patch.
    pub fields: Option<Vec<HeaderFieldSpec>>,
    /// Fields that replace the parent's field of the same key.
    pub overrides: Option<Vec<HeaderFieldSpec>>,
}

/// A document that describes one revision.
#[derive(Debug)]
pub struct SegySpecDefinition {
    /// Version string of the revision.
    pub version: String,
    /// Reference for the source of the revision.
    pub reference: String,
    /// Name of the document that this one extends, if it is a patch.
    pub extends: Option<String>,
    /// Binary header part.
    pub binary_header: Option<BinaryHeaderPatch>,
    /// Trace header part.
    pub trace_header: Option<TraceHeaderPatch>,
}

/// The documents of the four revisions.
#[derive(Debug)]
pub struct SpecDocuments {
    /// Revision 0.
    pub rev0: SegySpecDefinition,
    /// Revision 1.
    pub rev1: SegySpecDefinition,
    /// Revision 2.
    pub rev2: SegySpecDefinition,
    /// Revision 2.1.
    pub rev21: SegySpecDefinition,
}

/// The field tables of one revision.
#[derive(Debug)]
pub struct SegyFormatSpec {
    /// Version string of the revision.
    pub version: String,
    /// Reference for the source of the revision.
    pub reference: String,
    /// Binary header table.
    pub binary_header: BinaryHeaderSpec,
    /// Trace header table.
    pub trace_header: TraceHeaderSpec,
}

/// What the field tables of a revision say.
pub struct SpecView {
    /// Version string of the revision.
    pub version: Seq<char>,
    /// Reference for the source of the revision.
    pub reference: Seq<char>,
    /// Size of the binary header in bytes.
    pub binary_size: usize,
    /// Byte offset of the binary header in the file.
    pub binary_offset: usize,
    /// The fields of the binary header.
    pub binary_fields: Seq<FieldView>,
    /// Size of the trace header in bytes.
    pub trace_size: usize,
    /// The fields of the trace header.
    pub trace_fields: Seq<FieldView>,
}

impl View for SegyFormatSpec {
    type V = SpecView;

    open spec fn view(&self) -> SpecView {
        SpecView {
            version: self.version@,
            reference: self.reference@,
            binary_size: self.binary_header.size,
            binary_offset: self.binary_header.byte_offset,
            binary_fields: field_views(self.binary_header.fields@),
            trace_size: self.trace_header.size,
            trace_fields: field_views(self.trace_header.fields@),
        }
    }
}

/// The document family of a revision code.
#[derive(Debug, Clone, Copy, PartialEq, Eq, Structural)]
pub enum SpecRevision {
    /// Revision 0.
    Rev0,
    /// Revision 1.
    Rev1,
    /// Revision 2.
    Rev2,
    /// Revision 2.1.
    Rev21,
}

/// The revision that a 16-bit revision code stands for. The high byte is
/// the major revision. With major 0 the codes 1 and 2 stand for revisions 1
/// and 2 and any other for revision 0; major 1 is revision 1; major 2 is
/// revision 2, but for the code 0x0201, which is revision 2.1; any other
/// major is revision 0.
pub open spec fn revision_of(raw_revision: int) -> SpecRevision {
    let major = raw_revision / 0x100;
    if major == 0 {
        if raw_revision == 1 {
            SpecRevision::Rev1
        } else if raw_revision == 2 {
            SpecRevision::Rev2
        } else {
            SpecRevision::Rev0
        }
    } else if major == 1 {
        SpecRevision::Rev1
    } else if major == 2 {
        if raw_revision == 0x0201 {
            SpecRevision::Rev21
        } else {
            SpecRevision::Rev2
        }
    } else {
        SpecRevision::Rev0
    }
}

/// The document name of a revision.
pub open spec fn document_name(revision: SpecRevision) -> Seq<char> {
    match revision {
        SpecRevision::Rev0 => REV0_SPEC@,
        SpecRevision::Rev1 => REV1_SPEC@,
        SpecRevision::Rev2 => REV2_SPEC@,
        SpecRevision::Rev21 => REV21_SPEC@,
    }
}

/// Finds the revision of a 16-bit revision code.
pub fn resolve_revision(raw_revision: u16) -> (revision: SpecRevision)
    ensures
        revision == revision_of(raw_revision as int),
{
    let major = raw_revision / 0x100;
    if major == 0 {
        if raw_revision == 1 {
            SpecRevision::Rev1
        } else if raw_revision == 2 {
            SpecRevision::Rev2
        } else {
            SpecRevision::Rev0
        }
    } else if major == 1 {
        SpecRevision::Rev1
    } else if major == 2 {
        if raw_revision == 0x0201 {
            SpecRevision::Rev21
        } else {
            SpecRevision::Rev2
        }
    } else {
        SpecRevision::Rev0
    }
}

/// The tables that a base document gives: it must say the sizes, the offset
/// and the fields of both headers.
pub open spec fn base_tables(definition: SegySpecDefinition) -> Option<SpecView> {
    match (definition.binary_header, definition.trace_header) {
        (Some(binary), Some(trace)) => if binary.size is Some && binary.byte_offset is Some
            && binary.fields is Some && trace.size is Some && trace.fields is Some {
            Some(
                SpecView {
                    version: definition.version@,
                    reference: definition.reference@,
                    binary_size: binary.size->Some_0,
                    binary_offset: binary.byte_offset->Some_0,
                    binary_fields: optional_views(binary.fields),
                    trace_size: trace.size->Some_0,
                    trace_fields: optional_views(trace.fields),
                },
            )
        } else {
            None
        },
        _ => None,
    }
}

/// The tables of a document that extends a parent: the parent's tables
/// under the document's version and reference, patched where the document
/// says something of a header.
pub open spec fn extended_tables(parent: SpecView, definition: SegySpecDefinition) -> SpecView {
    SpecView {
        version: definition.version@,
        reference: definition.reference@,
        binary_size: match definition.binary_header {
            Some(patch) => patched_size(parent.binary_size, patch.size),
            None => parent.binary_size,
        },
        binary_offset: match definition.binary_header {
            Some(patch) => patched_size(parent.binary_offset, patch.byte_offset),
            None => parent.binary_offset,
        },
        binary_fields: match definition.binary_header {
            Some(patch) => patched_fields(parent.binary_fields, patch.fields, patch.overrides),
            None => parent.binary_fields,
        },
        trace_size: match definition.trace_header {
            Some(patch) => patched_size(parent.trace_size, patch.size),
            None => parent.trace_size,
        },
        trace_fields: match definition.trace_header {
            Some(patch) => patched_fields(parent.trace_fields, patch.fields, patch.overrides),
            None => parent.trace_fields,
        },
    }
}

impl SpecDocuments {
    /// The document of a name, if the name is one of the four.
    pub open spec fn named(self, name: Seq<char>) -> Option<SegySpecDefinition> {
        if name == REV0_SPEC@ {
            Some(self.rev0)
        } else if name == REV1_SPEC@ {
            Some(self.rev1)
        } else if name == REV2_SPEC@ {
            Some(self.rev2)
        } else if name == REV21_SPEC@ {
            Some(self.rev21)
        } else {
            None
        }
    }

    /// The tables that the document of a name resolves to, following at
    /// most `depth` documents that it extends. There are none when a name
    /// is unknown, a base document is incomplete, or the chain is longer.
    pub open spec fn resolved(self, name: Seq<char>, depth: nat) -> Option<SpecView>
        decreases depth,
    {
        match self.named(name) {
            None => None,
            Some(definition) => match definition.extends {
                Some(parent_name) => if depth == 0 {
                    None
                } else {
                    match self.resolved(parent_name@, (depth - 1) as nat) {
                        Some(parent) => Some(extended_tables(parent, definition)),
                        None => None,
                    }
                },
                None => base_tables(definition),
            },
        }
    }

    /// Finds the document of a name.
    fn find(&self, name: &str) -> (found: Option<&SegySpecDefinition>)
        ensures
            match self.named(name@) {
                Some(definition) => found == Some(&definition),
                None => found is None,
            },
    {
        let wanted = String::from_str(name);
        if wanted == String::from_str(REV0_SPEC) {
            Some(&self.rev0)
        } else if wanted == String::from_str(REV1_SPEC) {
            Some(&self.rev1)
        } else if wanted == String::from_str(REV2_SPEC) {
            Some(&self.rev2)
        } else if wanted == String::from_str(REV21_SPEC) {
            Some(&self.rev21)
        } else {
            None
        }
    }
}

/// Copies a list of rows.
fn clone_fields(fields: &Vec<HeaderFieldSpec>) -> (copy: Vec<HeaderFieldSpec>)
    ensures
        field_views(copy@) == field_views(fields@),
{
    let mut copy: Vec<HeaderFieldSpec> = Vec::new();
    let mut i: usize = 0;
    while i < fields.len()
        invariant
            i <= fields@.len(),
            copy@.len() == i,
            forall|k: int| 0 <= k < i ==> (#[trigger] copy@[k])@ == fields@[k]@,
        decreases fields@.len() - i,
    {
        copy.push(fields[i].clone());
        i += 1;
    }
    assert(field_views(copy@) =~= field_views(fields@));
    copy
}

/// Copies an optional list of rows.
fn clone_optional_fields(fields: &Option<Vec<HeaderFieldSpec>>) -> (copy: Option<
    Vec<HeaderFieldSpec>,
>)
    ensures
        copy is Some == fields is Some,
        optional_views(copy) == optional_views(*fields),
{
    match fields {
        Some(rows) => Some(clone_fields(rows)),
        None => None,
    }
}

/// Finds the first row with the given key.
fn find_field(fields: &Vec<HeaderFieldSpec>, key: &String) -> (found: Option<usize>)
    ensures
        match position_of_key(field_views(fields@), key@) {
            Some(i) => 0 <= i < fields@.len() && found is Some && found->Some_0 == i,
            None => found is None,
        },
{
    let ghost views = field_views(fields@);
    let mut i: usize = 0;
    while i < fields.len()
        invariant
            i <= fields@.len(),
            views == field_views(fields@),
            position_of_key(views.take(i as int), key@) is None,
        decreases fields@.len() - i,
    {
        assert(views.take(i + 1).drop_last() == views.take(i as int));
        if fields[i].field_key == *key {
            proof {
                lemma_found_in_prefix(views, key@, i + 1);
            }
            return Some(i);
        }
        i += 1;
    }
    assert(views.take(i as int) == views);
    None
}

/// A key found in a prefix of a table is found at the same place in the
/// table.
proof fn lemma_found_in_prefix(fields: Seq<FieldView>, key: Seq<char>, len: int)
    requires
        0 <= len <= fields.len(),
        position_of_key(fields.take(len), key) is Some,
    ensures
        position_of_key(fields, key) == position_of_key(fields.take(len), key),
    decreases fields.len() - len,
{
    if len < fields.len() {
        assert(fields.take(len + 1).drop_last() == fields.take(len));
        lemma_found_in_prefix(fields, key, len + 1);
    } else {
        assert(fields.take(len) == fields);
    }
}

/// Applies a list of overrides to a table, one after the other.
fn apply_overrides(fields: &mut Vec<HeaderFieldSpec>, overrides: Vec<HeaderFieldSpec>)
    ensures
        field_views(final(fields)@) == overridden_all(
            field_views(old(fields)@),
            field_views(overrides@),
        ),
{
    let ghost start = field_views(fields@);
    let ghost all = field_views(overrides@);
    for field in it: overrides
        invariant
            all == field_views(overrides@),
            field_views(fields@) == overridden_all(start, all.take(it.index() as int)),
    {
        let ghost before = field_views(fields@);
        let ghost applied = it.index() as int;
        let ghost row = field@;
        assert(all.take(applied + 1).drop_last() == all.take(applied));
        assert(all.take(applied + 1).last() == row);
        let found = find_field(fields, &field.field_key);
        assert(found is Some == position_of_key(before, row.field_key) is Some);
        match found {
            Some(i) => {
                assert(position_of_key(before, row.field_key) == Some(i as int));
                fields[i] = field;
                assert(field_views(fields@) =~= before.update(i as int, row));
                assert(field_views(fields@) == overridden(before, row));
            },
            None => {
                fields.push(field);
                assert(field_views(fields@) =~= before.push(row));
                assert(field_views(fields@) == overridden(before, row));
            },
        }
        assert(overridden_all(start, all.take(applied + 1)) == overridden(
            overridden_all(start, all.take(applied + 1).drop_last()),
            all.take(applied + 1).last(),
        ));
    }
    assert(all.take(overrides@.len() as int) == all);
}

/// Appends a list of rows to a table.
fn append_fields(fields: &mut Vec<HeaderFieldSpec>, added: Vec<HeaderFieldSpec>)
    ensures
        field_views(final(fields)@) == field_views(old(fields)@) + field_views(added@),
{
    let ghost rows = added@;
    let mut added = added;
    fields.append(&mut added);
    assert(field_views(fields@) =~= field_views(old(fields)@) + field_views(rows));
}

/// Applies a patch to the table of the binary header: the size and the
/// offset replace, the fields are appended, and each override replaces the
/// field of its key in place or is appended.
pub fn apply_binary_patch(target: &mut BinaryHeaderSpec, patch: BinaryHeaderPatch)
    ensures
        final(target).size == patched_size(old(target).size, patch.size),
        final(target).byte_offset == patched_size(old(target).byte_offset, patch.byte_offset),
        field_views(final(target).fields@) == patched_fields(
            field_views(old(target).fields@),
            patch.fields,
            patch.overrides,
        ),
{
    if let Some(size) = patch.size {
        target.size = size;
    }
    if let Some(byte_offset) = patch.byte_offset {
        target.byte_offset = byte_offset;
    }
    if let Some(fields) = patch.fields {
        append_fields(&mut target.fields, fields);
    } else {
        assert(field_views(target.fields@) + Seq::<FieldView>::empty() =~= field_views(
            target.fields@,
        ));
    }
    if let Some(overrides) = patch.overrides {
        apply_overrides(&mut target.fields, overrides);
    }
}

/// Applies a patch to the table of the trace header: the size replaces, the
/// fields are appended, and each override replaces the field of its key in
/// place or is appended.
pub fn apply_trace_patch(target: &mut TraceHeaderSpec, patch: TraceHeaderPatch)
    ensures
        final(target).size == patched_size(old(target).size, patch.size),
        field_views(final(target).fields@) == patched_fields(
            field_views(old(target).fields@),
            patch.fields,
            patch.overrides,
        ),
{
    if let Some(size) = patch.size {
        target.size = size;
    }
    if let Some(fields) = patch.fields {
        append_fields(&mut target.fields, fields);
    } else {
        assert(field_views(target.fields@) + Seq::<FieldView>::empty() =~= field_views(
            target.fields@,
        ));
    }
    if let Some(overrides) = patch.overrides {
        apply_overrides(&mut target.fields, overrides);
    }
}

impl BinaryHeaderPatch {
    /// A copy of the patch.
    pub fn clone(&self) -> (copy: BinaryHeaderPatch)
        ensures
            copy.size == self.size,
            copy.byte_offset == self.byte_offset,
            copy.fields is Some == self.fields is Some,
            optional_views(copy.fields) == optional_views(self.fields),
            optional_views(copy.overrides) == optional_views(self.overrides),
    {
        BinaryHeaderPatch {
            size: self.size,
            byte_offset: self.byte_offset,
            fields: clone_optional_fields(&self.fields),
            overrides: clone_optional_fields(&self.overrides),
        }
    }
}

impl TraceHeaderPatch {
    /// A copy of the patch.
    pub fn clone(&self) -> (copy: TraceHeaderPatch)
        ensures
            copy.size == self.size,
            copy.fields is Some == self.fields is Some,
            optional_views(copy.fields) == optional_views(self.fields),
            optional_views(copy.overrides) == optional_views(self.overrides),
    {
        TraceHeaderPatch {
            size: self.size,
            fields: clone_optional_fields(&self.fields),
            overrides: clone_optional_fields(&self.overrides),
        }
    }
}

impl SegyFormatSpec {
    /// The tables of revision 0.
    pub fn load_rev0(documents: &SpecDocuments) -> (loaded: Result<SegyFormatSpec, String>)
        ensures
            match documents.resolved(REV0_SPEC@, MAX_SPEC_DEPTH as nat) {
                Some(tables) => loaded matches Ok(spec) && spec@ == tables,
                None => loaded is Err,
            },
    {
        SegyFormatSpec::load_spec_definition(documents, REV0_SPEC, MAX_SPEC_DEPTH)
    }

    /// The tables of revision 1.
    pub fn load_rev1(documents: &SpecDocuments) -> (loaded: Result<SegyFormatSpec, String>)
        ensures
            match documents.resolved(REV1_SPEC@, MAX_SPEC_DEPTH as nat) {
                Some(tables) => loaded matches Ok(spec) && spec@ == tables,
                None => loaded is Err,
            },
    {
        SegyFormatSpec::load_spec_definition(documents, REV1_SPEC, MAX_SPEC_DEPTH)
    }

    /// The tables of revision 2.
    pub fn load_rev2(documents: &SpecDocuments) -> (loaded: Result<SegyFormatSpec, String>)
        ensures
            match documents.resolved(REV2_SPEC@, MAX_SPEC_DEPTH as nat) {
                Some(tables) => loaded matches Ok(spec) && spec@ == tables,
                None => loaded is Err,
            },
    {
        SegyFormatSpec::load_spec_definition(documents, REV2_SPEC, MAX_SPEC_DEPTH)
    }

    /// The tables of revision 2.1.
    pub fn load_rev21(documents: &SpecDocuments) -> (loaded: Result<SegyFormatSpec, String>)
        ensures
            match documents.resolved(REV21_SPEC@, MAX_SPEC_DEPTH as nat) {
                Some(tables) => loaded matches Ok(spec) && spec@ == tables,
                None => loaded is Err,
            },
    {
        SegyFormatSpec::load_spec_definition(documents, REV21_SPEC, MAX_SPEC_DEPTH)
    }

    /// Resolves the document of a name to its tables.
    fn load_spec_definition(documents: &SpecDocuments, spec_name: &str, depth: usize) -> (loaded:
        Result<SegyFormatSpec, String>)
        ensures
            match documents.resolved(spec_name@, depth as nat) {
                Some(tables) => loaded matches Ok(spec) && spec@ == tables,
                None => loaded is Err,
            },
        decreases depth, 1int,
    {
        match documents.find(spec_name) {
            Some(definition) => SegyFormatSpec::materialize_definition(
                documents,
                definition,
                depth,
            ),
            None => Err(String::from_str("Unknown SEG-Y spec: ").concat(spec_name)),
        }
    }

    /// Builds the tables of a document: those of a base document as it
    /// says them, those of a patch from its parent's.
    pub fn materialize_definition(
        documents: &SpecDocuments,
        definition: &SegySpecDefinition,
        depth: usize,
    ) -> (built: Result<SegyFormatSpec, String>)
        ensures
            match SegyFormatSpec::materialized(*documents, *definition, depth as nat) {
                Some(tables) => built matches Ok(spec) && spec@ == tables,
                None => built is Err,
            },
        decreases depth, 0int,
    {
        match &definition.extends {
            Some(extends) => {
                if depth == 0 {
                    return Err(String::from_str("SEG-Y spec extends too many documents"));
                }
                let mut spec = match SegyFormatSpec::load_spec_definition(
                    documents,
                    extends.as_str(),
                    depth - 1,
                ) {
                    Ok(spec) => spec,
                    Err(reason) => {
                        return Err(reason);
                    },
                };
                spec.version = definition.version.clone();
                spec.reference = definition.reference.clone();
                if let Some(binary_patch) = &definition.binary_header {
                    apply_binary_patch(&mut spec.binary_header, binary_patch.clone());
                }
                if let Some(trace_patch) = &definition.trace_header {
                    apply_trace_patch(&mut spec.trace_header, trace_patch.clone());
                }
                Ok(spec)
            },
            None => {
                let binary_patch = match &definition.binary_header {
                    Some(patch) => patch,
                    None => {
                        return Err(String::from_str("Base SEG-Y spec missing binary header"));
                    },
                };
                let trace_patch = match &definition.trace_header {
                    Some(patch) => patch,
                    None => {
                        return Err(String::from_str("Base SEG-Y spec missing trace header"));
                    },
                };
                let binary_size = match binary_patch.size {
                    Some(size) => size,
                    None => {
                        return Err(
                            String::from_str("Base SEG-Y spec missing binary header size"),
                        );
                    },
                };
                let byte_offset = match binary_patch.byte_offset {
                    Some(offset) => offset,
                    None => {
                        return Err(
                            String::from_str("Base SEG-Y spec missing binary header byte offset"),
                        );
                    },
                };
                let binary_fields = match &binary_patch.fields {
                    Some(fields) => clone_fields(fields),
                    None => {
                        return Err(
                            String::from_str("Base SEG-Y spec missing binary header fields"),
                        );
                    },
                };
                let trace_size = match trace_patch.size {
                    Some(size) => size,
                    None => {
                        return Err(String::from_str("Base SEG-Y spec missing trace header size"));
                    },
                };
                let trace_fields = match &trace_patch.fields {
                    Some(fields) => clone_fields(fields),
                    None => {
                        return Err(
                            String::from_str("Base SEG-Y spec missing trace header fields"),
                        );
                    },
                };
                Ok(
                    SegyFormatSpec {
                        version: definition.version.clone(),
                        reference: definition.reference.clone(),
                        binary_header: BinaryHeaderSpec {
                            size: binary_size,
                            byte_offset,
                            fields: binary_fields,
                        },
                        trace_header: TraceHeaderSpec { size: trace_size, fields: trace_fields },
                    },
                )
            },
        }
    }

    /// The tables that a document gives among the documents, following at
    /// most `depth` documents that it extends.
    pub open spec fn materialized(
        documents: SpecDocuments,
        definition: SegySpecDefinition,
        depth: nat,
    ) -> Option<SpecView> {
        match definition.extends {
            Some(parent_name) => if depth == 0 {
                None
            } else {
                match documents.resolved(parent_name@, (depth - 1) as nat) {
                    Some(parent) => Some(extended_tables(parent, definition)),
                    None => None,
                }
            },
            None => base_tables(definition),
        }
    }

    /// The tables of the revision that a revision code of a binary header
    /// stands for.
    pub fn load_for_revision(documents: &SpecDocuments, raw_revision: u16) -> (loaded: Result<
        SegyFormatSpec,
        String,
    >)
        ensures
            match documents.resolved(
                document_name(revision_of(raw_revision as int)),
                MAX_SPEC_DEPTH as nat,
            ) {
                Some(tables) => loaded matches Ok(spec) && spec@ == tables,
                None => loaded is Err,
            },
    {
        match resolve_revision(raw_revision) {
            SpecRevision::Rev0 => SegyFormatSpec::load_rev0(documents),
            SpecRevision::Rev1 => SegyFormatSpec::load_rev1(documents),
            SpecRevision::Rev2 => SegyFormatSpec::load_rev2(documents),
            SpecRevision::Rev21 => SegyFormatSpec::load_rev21(documents),
        }
    }

    /// The fields of the binary header.
    pub fn get_binary_header_fields(&self) -> (fields: Vec<HeaderFieldSpec>)
        ensures
            field_views(fields@) == field_views(self.binary_header.fields@),
    {
        clone_fields(&self.binary_header.fields)
    }

    /// The fields of the trace header.
    pub fn get_trace_header_fields(&self) -> (fields: Vec<HeaderFieldSpec>)
        ensures
            field_views(fields@) == field_views(self.trace_header.fields@),
    {
        clone_fields(&self.trace_header.fields)
    }
}

/// Resolving a document with one more step allowed gives the same tables.
pub proof fn lemma_resolved_with_more_steps(documents: SpecDocuments, name: Seq<char>, depth: nat)
    requires
        documents.resolved(name, depth) is Some,
    ensures
        documents.resolved(name, depth + 1) == documents.resolved(name, depth),
    decreases depth,
{
    match documents.named(name) {
        Some(definition) => match definition.extends {
            Some(parent_name) => {
                lemma_resolved_with_more_steps(documents, parent_name@, (depth - 1) as nat);
            },
            None => {},
        },
        None => {},
    }
}

/// Whether a patched table keeps the rows that none of the overrides
/// names: it is no shorter than the table before, and each such row stands
/// where it stood, as it was.
pub open spec fn keeps_unnamed_rows(
    after: Seq<FieldView>,
    before: Seq<FieldView>,
    overrides: Option<Vec<HeaderFieldSpec>>,
) -> bool {
    &&& after.len() >= before.len()
    &&& forall|i: int|
        0 <= i < before.len() && !overrides_key(
            optional_views(overrides),
            (#[trigger] before[i]).field_key,
        ) ==> after[i] == before[i]
}

/// A patch keeps the rows that none of its overrides names.
pub proof fn lemma_patch_keeps_unnamed_rows(
    fields: Seq<FieldView>,
    added: Option<Vec<HeaderFieldSpec>>,
    overrides: Option<Vec<HeaderFieldSpec>>,
)
    ensures
        keeps_unnamed_rows(patched_fields(fields, added, overrides), fields, overrides),
{
    let grown = fields + optional_views(added);
    lemma_overrides_keep_the_rest(grown, optional_views(overrides));
    assert forall|i: int|
        0 <= i < fields.len() && !overrides_key(
            optional_views(overrides),
            (#[trigger] fields[i]).field_key,
        ) implies patched_fields(fields, added, overrides)[i] == fields[i] by {
        assert(grown[i] == fields[i]);
    }
}

/// The revision code 0x0201 stands for revision 2.1, and where the document
/// of revision 2.1 extends that of revision 2, its tables keep every row of
/// the tables of revision 2 that the overrides of its patch do not name:
/// name, key, byte range, type, description, required flag and code labels.
pub proof fn lemma_revision_21_keeps_revision_2(documents: SpecDocuments)
    requires
        documents.rev21.extends matches Some(parent) && parent@ == REV2_SPEC@,
        documents.resolved(REV21_SPEC@, MAX_SPEC_DEPTH as nat) is Some,
    ensures
        document_name(revision_of(0x0201)) == REV21_SPEC@,
        documents.resolved(REV2_SPEC@, MAX_SPEC_DEPTH as nat) is Some,
        ({
            let later = documents.resolved(REV21_SPEC@, MAX_SPEC_DEPTH as nat)->Some_0;
            let earlier = documents.resolved(REV2_SPEC@, MAX_SPEC_DEPTH as nat)->Some_0;
            &&& match documents.rev21.binary_header {
                Some(patch) => keeps_unnamed_rows(
                    later.binary_fields,
                    earlier.binary_fields,
                    patch.overrides,
                ),
                None => later.binary_fields == earlier.binary_fields,
            }
            &&& match documents.rev21.trace_header {
                Some(patch) => keeps_unnamed_rows(
                    later.trace_fields,
                    earlier.trace_fields,
                    patch.overrides,
                ),
                None => later.trace_fields == earlier.trace_fields,
            }
        }),
{
    reveal_strlit("segy_rev0_spec.json");
    reveal_strlit("segy_rev1_spec.json");
    reveal_strlit("segy_rev2_spec.json");
    reveal_strlit("segy_rev21_spec.json");
    assert(REV21_SPEC@.len() == 20);
    assert(REV0_SPEC@.len() == 19 && REV1_SPEC@.len() == 19 && REV2_SPEC@.len() == 19);
    assert(documents.named(REV21_SPEC@) == Some(documents.rev21));
    let parent = documents.rev21.extends->Some_0;
    let depth = (MAX_SPEC_DEPTH - 1) as nat;
    assert(documents.resolved(parent@, depth) is Some);
    lemma_resolved_with_more_steps(documents, REV2_SPEC@, depth);
    let earlier = documents.resolved(REV2_SPEC@, depth)->Some_0;
    match documents.rev21.binary_header {
        Some(patch) => {
            lemma_patch_keeps_unnamed_rows(earlier.binary_fields, patch.fields, patch.overrides);
        },
        None => {},
    }
    match documents.rev21.trace_header {
        Some(patch) => {
            lemma_patch_keeps_unnamed_rows(earlier.trace_fields, patch.fields, patch.overrides);
        },
        None => {},
    }
}

} // verus!
