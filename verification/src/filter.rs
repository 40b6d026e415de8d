//! The section of device filters: an array of tables, each of which describes
//! one filter under a closed set of keys.

use vstd::prelude::*;
use indexmap::IndexMap;
use crate::codes::{bus_of, try_into_bus_value};
use crate::document::{Node, entries_of, flag_of, items_of, text_of, u16_of};
use crate::error::{ConfigError, ErrorKind, Failure};
use crate::model::{DeviceFilter, DeviceFilterView, DeviceKind, device_kind_of, optional_text};
use crate::ordered::{filter_entries, insert_filter, placed};
use crate::text::same_text;

verus! {

/// A device filter while its table is being read: the reference name given
/// so far, and the fields given so far.
pub struct FilterDraft {
    pub internal_name: Option<String>,
    pub filter: DeviceFilter,
}

/// A `FilterDraft` as a mathematical value.
pub struct FilterDraftView {
    pub internal_name: Option<Seq<char>>,
    pub filter: DeviceFilterView,
}

impl View for FilterDraft {
    type V = FilterDraftView;

    open spec fn view(&self) -> FilterDraftView {
        FilterDraftView { internal_name: optional_text(self.internal_name), filter: self.filter@ }
    }
}

/// The draft of a filter before any key was read: no reference name, every
/// field absent, not exclusive.
pub open spec fn blank_filter() -> FilterDraftView {
    FilterDraftView {
        internal_name: None,
        filter: DeviceFilterView {
            kind: None,
            bus: None,
            vendor: None,
            not_vendor: None,
            product: None,
            version: None,
            name: None,
            exclusive: false,
            chmod: None,
        },
    }
}

/// The draft after one entry of a filter's table was read, or the fault of
/// that entry, seen from the entry's value.
pub open spec fn filter_step(draft: FilterDraftView, key: Seq<char>, value: Node) -> Result<
    FilterDraftView,
    Failure,
> {
    if key == "ref"@ {
        match text_of(value) {
            Ok(text) => Ok(FilterDraftView { internal_name: Some(text), ..draft }),
            Err(failure) => Err(failure),
        }
    } else if key == "name"@ {
        match text_of(value) {
            Ok(text) => Ok(
                FilterDraftView {
                    filter: DeviceFilterView { name: Some(text), ..draft.filter },
                    ..draft
                },
            ),
            Err(failure) => Err(failure),
        }
    } else if key == "bus"@ {
        match bus_of(value) {
            Some(bus) => Ok(
                FilterDraftView {
                    filter: DeviceFilterView { bus: Some(bus), ..draft.filter },
                    ..draft
                },
            ),
            None => Err(Failure::here(ErrorKind::InvalidValue)),
        }
    } else if key == "vendor"@ {
        match u16_of(value) {
            Ok(number) => Ok(
                FilterDraftView {
                    filter: DeviceFilterView { vendor: Some(number), ..draft.filter },
                    ..draft
                },
            ),
            Err(failure) => Err(failure),
        }
    } else if key == "not_vendor"@ {
        match u16_of(value) {
            Ok(number) => Ok(
                FilterDraftView {
                    filter: DeviceFilterView { not_vendor: Some(number), ..draft.filter },
                    ..draft
                },
            ),
            Err(failure) => Err(failure),
        }
    } else if key == "product"@ {
        match u16_of(value) {
            Ok(number) => Ok(
                FilterDraftView {
                    filter: DeviceFilterView { product: Some(number), ..draft.filter },
                    ..draft
                },
            ),
            Err(failure) => Err(failure),
        }
    } else if key == "version"@ {
        match u16_of(value) {
            Ok(number) => Ok(
                FilterDraftView {
                    filter: DeviceFilterView { version: Some(number), ..draft.filter },
                    ..draft
                },
            ),
            Err(failure) => Err(failure),
        }
    } else if key == "kind"@ {
        match text_of(value) {
            Ok(text) => match device_kind_of(text) {
                Some(kind) => Ok(
                    FilterDraftView {
                        filter: DeviceFilterView { kind: Some(kind), ..draft.filter },
                        ..draft
                    },
                ),
                None => Err(Failure::here(ErrorKind::InvalidValue)),
            },
            Err(failure) => Err(failure),
        }
    } else if key == "exclusive"@ {
        match flag_of(value) {
            Ok(flag) => Ok(
                FilterDraftView {
                    filter: DeviceFilterView { exclusive: flag, ..draft.filter },
                    ..draft
                },
            ),
            Err(failure) => Err(failure),
        }
    } else if key == "chmod"@ {
        match u16_of(value) {
            Ok(number) => Ok(
                FilterDraftView {
                    filter: DeviceFilterView { chmod: Some(number), ..draft.filter },
                    ..draft
                },
            ),
            Err(failure) => Err(failure),
        }
    } else {
        Err(Failure::here(ErrorKind::UnrecognizedKey))
    }
}

/// The draft after the entries of a filter's table from position `from` on
/// were read in order, or the fault of the first entry that has one, seen
/// from the table.
pub open spec fn filter_scan(entries: Seq<(String, Node)>, from: int, draft: FilterDraftView)
    -> Result<FilterDraftView, Failure>
    decreases entries.len() - from,
{
    if from < 0 || from >= entries.len() {
        Ok(draft)
    } else {
        match filter_step(draft, entries[from].0@, entries[from].1) {
            Ok(next) => filter_scan(entries, from + 1, next),
            Err(failure) => Err(failure.under(entries[from].0@)),
        }
    }
}

/// The name under which a finished draft is filed: its `ref`, else its
/// `name`; a draft with neither misses its `ref`.
pub open spec fn filter_named(draft: FilterDraftView) -> Result<
    (Seq<char>, DeviceFilterView),
    Failure,
> {
    match draft.internal_name {
        Some(name) => Ok((name, draft.filter)),
        None => match draft.filter.name {
            Some(name) => Ok((name, draft.filter)),
            None => Err(Failure::at_key(ErrorKind::Missing, "ref"@)),
        },
    }
}

/// The filter that one item of the section describes, with the name under
/// which it is filed, or the item's fault, seen from the item.
pub open spec fn filter_of(item: Node) -> Result<(Seq<char>, DeviceFilterView), Failure> {
    match entries_of(item) {
        Ok(entries) => match filter_scan(entries, 0, blank_filter()) {
            Ok(draft) => filter_named(draft),
            Err(failure) => Err(failure),
        },
        Err(failure) => Err(failure),
    }
}

/// The filters on file after the items of the section from position `from`
/// on were filed in order, or the fault of the first item that has one, seen
/// from the section.
pub open spec fn filters_scan(
    items: Seq<Node>,
    from: int,
    filed: Seq<(Seq<char>, DeviceFilterView)>,
) -> Result<Seq<(Seq<char>, DeviceFilterView)>, Failure>
    decreases items.len() - from,
{
    if from < 0 || from >= items.len() {
        Ok(filed)
    } else {
        match filter_of(items[from]) {
            Ok(entry) => filters_scan(items, from + 1, placed(filed, entry.0, entry.1)),
            Err(failure) => Err(failure.item(from)),
        }
    }
}

/// The filters on file after a whole section was read.
pub open spec fn filters_of(section: Node, filed: Seq<(Seq<char>, DeviceFilterView)>) -> Result<
    Seq<(Seq<char>, DeviceFilterView)>,
    Failure,
> {
    match items_of(section) {
        Ok(items) => filters_scan(items, 0, filed),
        Err(failure) => Err(failure),
    }
}

impl FilterDraft {
    /// A draft before any key was read.
    pub fn blank() -> (draft: FilterDraft)
        ensures
            draft@ == blank_filter(),
    {
        FilterDraft {
            internal_name: None,
            filter: DeviceFilter {
                kind: None,
                bus: None,
                vendor: None,
                not_vendor: None,
                product: None,
                version: None,
                name: None,
                exclusive: false,
                chmod: None,
            },
        }
    }

    /// Reads one entry of a filter's table into the draft. On a fault the
    /// draft is left as it was.
    pub fn read(&mut self, key: &str, value: &Node) -> (done: Result<(), ConfigError>)
        ensures
            match done {
                Ok(()) => filter_step(old(self)@, key@, *value) == Ok::<FilterDraftView, Failure>(
                    final(self)@,
                ),
                Err(error) => filter_step(old(self)@, key@, *value) == Err::<
                    FilterDraftView,
                    Failure,
                >(error@) && *final(self) == *old(self),
            },
    {
        if same_text(key, "ref") {
            let text = value.expect_str()?;
            self.internal_name = Some(text.clone());
        } else if same_text(key, "name") {
            let text = value.expect_str()?;
            self.filter.name = Some(text.clone());
        } else if same_text(key, "bus") {
            match try_into_bus_value(value) {
                Some(bus) => {
                    self.filter.bus = Some(bus);
                },
                None => {
                    return Err(ConfigError::here(ErrorKind::InvalidValue));
                },
            }
        } else if same_text(key, "vendor") {
            let number = value.expect_u16()?;
            self.filter.vendor = Some(number);
        } else if same_text(key, "not_vendor") {
            let number = value.expect_u16()?;
            self.filter.not_vendor = Some(number);
        } else if same_text(key, "product") {
            let number = value.expect_u16()?;
            self.filter.product = Some(number);
        } else if same_text(key, "version") {
            let number = value.expect_u16()?;
            self.filter.version = Some(number);
        } else if same_text(key, "kind") {
            let text = value.expect_str()?;
            match DeviceKind::try_from_str(text.as_str()) {
                Some(kind) => {
                    self.filter.kind = Some(kind);
                },
                None => {
                    return Err(ConfigError::here(ErrorKind::InvalidValue));
                },
            }
        } else if same_text(key, "exclusive") {
            let flag = value.expect_bool()?;
            self.filter.exclusive = flag;
        } else if same_text(key, "chmod") {
            let number = value.expect_u16()?;
            self.filter.chmod = Some(number);
        } else {
            return Err(ConfigError::here(ErrorKind::UnrecognizedKey));
        }
        Ok(())
    }

    /// Ends the draft: the filter, and the name under which it is filed.
    pub fn finish(self) -> (done: Result<(String, DeviceFilter), ConfigError>)
        ensures
            match done {
                Ok(entry) => filter_named(self@) == Ok::<(Seq<char>, DeviceFilterView), Failure>(
                    (entry.0@, entry.1@),
                ),
                Err(error) => filter_named(self@) == Err::<
                    (Seq<char>, DeviceFilterView),
                    Failure,
                >(error@),
            },
    {
        match self.internal_name {
            Some(name) => Ok((name, self.filter)),
            None => {
                let name = match &self.filter.name {
                    Some(name) => name.clone(),
                    None => {
                        return Err(ConfigError::at_key(ErrorKind::Missing, "ref"));
                    },
                };
                Ok((name, self.filter))
            },
        }
    }
}

/// Reads one item of the section of device filters: a table of the keys
/// `ref`, `name`, `bus`, `vendor`, `not_vendor`, `product`, `version`,
/// `kind`, `exclusive` and `chmod`.
pub fn parse_filter(item: &Node) -> (done: Result<(String, DeviceFilter), ConfigError>)
    ensures
        match done {
            Ok(entry) => filter_of(*item) == Ok::<(Seq<char>, DeviceFilterView), Failure>(
                (entry.0@, entry.1@),
            ),
            Err(error) => filter_of(*item) == Err::<(Seq<char>, DeviceFilterView), Failure>(
                error@,
            ),
        },
{
    let entries = item.expect_table()?;
    let mut draft = FilterDraft::blank();
    let mut at: usize = 0;
    while at < entries.len()
        invariant
            at <= entries.len(),
            entries_of(*item) == Ok::<Seq<(String, Node)>, Failure>(entries@),
            filter_scan(entries@, at as int, draft@) == filter_scan(entries@, 0, blank_filter()),
        decreases entries.len() - at,
    {
        let key = &entries[at].0;
        match draft.read(key.as_str(), &entries[at].1) {
            Ok(()) => {},
            Err(error) => {
                return Err(error.under(key.as_str()));
            },
        }
        at = at + 1;
    }
    draft.finish()
}

/// Reads the section of device filters and files each filter under its
/// name, in the order of the section.
pub fn parse_filters(section: &Node, filed: &mut IndexMap<String, DeviceFilter>) -> (done: Result<
    (),
    ConfigError,
>)
    ensures
        match done {
            Ok(()) => filters_of(*section, filter_entries(*old(filed))) == Ok::<
                Seq<(Seq<char>, DeviceFilterView)>,
                Failure,
            >(filter_entries(*final(filed))),
            Err(error) => filters_of(*section, filter_entries(*old(filed))) == Err::<
                Seq<(Seq<char>, DeviceFilterView)>,
                Failure,
            >(error@),
        },
{
    let items = section.expect_array()?;
    let mut at: usize = 0;
    while at < items.len()
        invariant
            at <= items.len(),
            items_of(*section) == Ok::<Seq<Node>, Failure>(items@),
            filters_scan(items@, at as int, filter_entries(*filed)) == filters_scan(
                items@,
                0,
                filter_entries(*old(filed)),
            ),
        decreases items.len() - at,
    {
        match parse_filter(&items[at]) {
            Ok(entry) => {
                insert_filter(filed, entry.0, entry.1);
            },
            Err(error) => {
                return Err(error.item(at));
            },
        }
        at = at + 1;
    }
    Ok(())
}

} // verus!
