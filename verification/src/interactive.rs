//! The set of providers that the operator has switched off, and the screen
//! rows through which the operator does so.

use vstd::prelude::*;
use vstd::string::*;
use crate::provider::Provider;
use crate::table::NameTable;

verus! {

/// First screen row that shows a provider.
pub const FIRST_PROVIDER_ROW: u16 = 3;

/// Column at which the toggle button of a row starts.
pub const TOGGLE_BUTTON_COLUMN: u16 = 65;

/// Width of a toggle button, in columns.
pub const TOGGLE_BUTTON_WIDTH: u16 = 8;

/// Where one provider is shown, and where its toggle button lies.
#[derive(Clone, Debug)]
pub struct ProviderRow {
    pub index: usize,
    pub provider_name: String,
    pub y_position: u16,
    pub toggle_button_x: u16,
    pub toggle_button_width: u16,
}

impl ProviderRow {
    /// Whether a click at (`column`, `row`) lands on the toggle button.
    pub open spec fn covers(self, column: u16, row: u16) -> bool {
        &&& row == self.y_position
        &&& column >= self.toggle_button_x
        &&& column < self.toggle_button_x + self.toggle_button_width
    }

    /// Whether a click at (`column`, `row`) lands on the toggle button.
    pub fn is_hit(&self, column: u16, row: u16) -> (r: bool)
        ensures
            r == self.covers(column, row),
    {
        row == self.y_position && column >= self.toggle_button_x && column - self.toggle_button_x
            < self.toggle_button_width
    }
}

/// The rows of `count` providers: one below the other from the first
/// provider row, as long as the screen has row numbers for them.
pub open spec fn row_of(i: int) -> int {
    FIRST_PROVIDER_ROW as int + i
}

/// Lays the providers out, one per row. Providers whose row number would not
/// fit the screen's coordinates get none.
pub fn layout_rows(providers: &Vec<Provider>) -> (rows: Vec<ProviderRow>)
    ensures
        rows.len() <= providers.len(),
        rows.len() == providers.len() || rows.len() == u16::MAX - FIRST_PROVIDER_ROW + 1,
        providers.len() <= u16::MAX - FIRST_PROVIDER_ROW ==> rows.len() == providers.len(),
        forall|i: int|
            0 <= i < rows.len() ==> {
                &&& (#[trigger] rows[i]).index == i
                &&& rows[i].provider_name@ == providers[i].name@
                &&& rows[i].y_position == row_of(i)
                &&& rows[i].toggle_button_x == TOGGLE_BUTTON_COLUMN
                &&& rows[i].toggle_button_width == TOGGLE_BUTTON_WIDTH
            },
{
    let mut rows: Vec<ProviderRow> = Vec::new();
    let mut i: usize = 0;
    let mut y: u16 = FIRST_PROVIDER_ROW;
    while i < providers.len()
        invariant
            i <= providers.len(),
            rows.len() == i,
            y == row_of(i as int),
            forall|j: int|
                0 <= j < rows.len() ==> {
                    &&& (#[trigger] rows[j]).index == j
                    &&& rows[j].provider_name@ == providers[j].name@
                    &&& rows[j].y_position == row_of(j)
                    &&& rows[j].toggle_button_x == TOGGLE_BUTTON_COLUMN
                    &&& rows[j].toggle_button_width == TOGGLE_BUTTON_WIDTH
                },
        decreases providers.len() - i,
    {
        rows.push(
            ProviderRow {
                index: i,
                provider_name: providers[i].name.clone(),
                y_position: y,
                toggle_button_x: TOGGLE_BUTTON_COLUMN,
                toggle_button_width: TOGGLE_BUTTON_WIDTH,
            },
        );
        if y == u16::MAX {
            return rows;
        }
        y = y + 1;
        i = i + 1;
    }
    rows
}

/// The first row whose toggle button a click at (`column`, `row`) lands on.
pub fn row_at(rows: &Vec<ProviderRow>, column: u16, row: u16) -> (r: Option<usize>)
    ensures
        match r {
            Some(i) => {
                &&& i < rows.len()
                &&& rows[i as int].covers(column, row)
                &&& forall|j: int| 0 <= j < i ==> !rows[j].covers(column, row)
            },
            None => forall|j: int| 0 <= j < rows.len() ==> !rows[j].covers(column, row),
        },
{
    let mut i: usize = 0;
    while i < rows.len()
        invariant
            i <= rows.len(),
            forall|j: int| 0 <= j < i ==> !rows[j].covers(column, row),
        decreases rows.len() - i,
    {
        if rows[i].is_hit(column, row) {
            return Some(i);
        }
        i = i + 1;
    }
    None
}

/// The operator's switches: which providers are disabled, and the rows last
/// laid out.
pub struct InteractiveProviderManager {
    pub(crate) disabled_providers: NameTable<bool>,
    pub(crate) provider_rows: Vec<ProviderRow>,
}

impl View for InteractiveProviderManager {
    type V = Map<Seq<char>, bool>;

    /// For every name, whether it is disabled. A name never toggled is not.
    open(crate) spec fn view(&self) -> Map<Seq<char>, bool> {
        Map::new(
            |key: Seq<char>| true,
            |key: Seq<char>|
                self.disabled_providers.views().dom().contains(key)
                    && self.disabled_providers.views()[key],
        )
    }
}

impl InteractiveProviderManager {
    pub open(crate) spec fn wf(&self) -> bool {
        self.disabled_providers.wf()
    }

    /// The rows last laid out, as a sequence.
    pub open(crate) spec fn rows(&self) -> Seq<ProviderRow> {
        self.provider_rows@
    }

    /// A manager with every provider enabled and no rows.
    pub fn new() -> (r: InteractiveProviderManager)
        ensures
            r.wf(),
            forall|key: Seq<char>| !r@[key],
            r.rows().len() == 0,
    {
        InteractiveProviderManager {
            disabled_providers: NameTable::new(),
            provider_rows: Vec::new(),
        }
    }

    /// Whether the provider called `provider_name` is disabled.
    pub fn is_provider_disabled(&self, provider_name: &str) -> (r: bool)
        requires
            self.wf(),
        ensures
            r == self@[provider_name@],
    {
        match self.disabled_providers.get(provider_name) {
            Some(flag) => flag,
            None => false,
        }
    }

    /// Switches the provider called `provider_name` from enabled to disabled
    /// or back, and says whether it is disabled now.
    pub fn toggle_provider(&mut self, provider_name: &str) -> (r: bool)
        requires
            old(self).wf(),
        ensures
            final(self).wf(),
            r == !old(self)@[provider_name@],
            final(self)@ == old(self)@.insert(provider_name@, r),
            final(self).rows() == old(self).rows(),
    {
        let current = self.is_provider_disabled(provider_name);
        let new_state = !current;
        self.disabled_providers.insert(provider_name, new_state);
        assert(self@ =~= old(self)@.insert(provider_name@, new_state));
        new_state
    }

    /// Replaces the rows by a fresh layout of `providers`.
    pub fn set_rows(&mut self, providers: &Vec<Provider>)
        requires
            old(self).wf(),
        ensures
            final(self).wf(),
            final(self)@ == old(self)@,
            final(self).rows().len() <= providers.len(),
            forall|i: int|
                0 <= i < final(self).rows().len() ==> {
                    &&& (#[trigger] final(self).rows()[i]).index == i
                    &&& final(self).rows()[i].provider_name@ == providers[i].name@
                    &&& final(self).rows()[i].y_position == row_of(i)
                },
    {
        self.provider_rows = layout_rows(providers);
    }

    /// The name of the provider whose toggle button a click at (`column`,
    /// `row`) lands on, going by the rows last laid out.
    pub fn clicked_provider(&self, column: u16, row: u16) -> (r: Option<String>)
        ensures
            match r {
                Some(name) => exists|i: int|
                    0 <= i < self.rows().len() && self.rows()[i].covers(column, row)
                        && self.rows()[i].provider_name@ == name@ && forall|j: int|
                        0 <= j < i ==> !self.rows()[j].covers(column, row),
                None => forall|j: int|
                    0 <= j < self.rows().len() ==> !self.rows()[j].covers(column, row),
            },
    {
        match row_at(&self.provider_rows, column, row) {
            Some(i) => {
                let name = self.provider_rows[i].provider_name.clone();
                assert(self.rows()[i as int].covers(column, row) && self.rows()[i as int].provider_name@
                    == name@);
                Some(name)
            },
            None => None,
        }
    }
}

impl Default for InteractiveProviderManager {
    /// A manager with every provider enabled and no rows.
    fn default() -> (r: InteractiveProviderManager)
        ensures
            r.wf(),
            forall|key: Seq<char>| !r@[key],
            r.rows().len() == 0,
    {
        InteractiveProviderManager::new()
    }
}

} // verus!
