//! The top-level tab bar: three tabs cycled through with left/right.

use vstd::prelude::*;

verus! {

#[derive(Clone, Copy, PartialEq, Eq, Structural, Debug)]
pub enum TabType {
    Inventory,
    Tomato,
    Statistics,
}

/// Which tab a selection index lands on; anything out of range falls
/// back to the first tab.
pub open spec fn tab_of_select(i: int) -> TabType {
    if i == 1 {
        TabType::Tomato
    } else if i == 2 {
        TabType::Statistics
    } else {
        TabType::Inventory
    }
}

pub struct NavitabModel {
    pub titles: Vec<String>,
    pub select: usize,
}

impl NavitabModel {
    /// Three fixed tabs, selection starting on the first.
    pub open spec fn wf(self) -> bool {
        self.titles@.len() == 3 && self.select < 3
    }

    pub fn new() -> (r: NavitabModel)
        ensures
            r.wf(),
            r.select == 0,
            r.titles@[0]@ == "Inventory"@,
            r.titles@[1]@ == "Tomato"@,
            r.titles@[2]@ == "Statistics"@,
    {
        let mut titles: Vec<String> = Vec::new();
        titles.push("Inventory".to_owned());
        titles.push("Tomato".to_owned());
        titles.push("Statistics".to_owned());
        NavitabModel { titles, select: 0 }
    }

    pub fn next(&mut self)
        requires
            old(self).wf(),
        ensures
            final(self).wf(),
            final(self).titles == old(self).titles,
            final(self).select == (old(self).select + 1) % 3,
    {
        self.select = (self.select + 1) % self.titles.len();
    }

    pub fn previous(&mut self)
        requires
            old(self).wf(),
        ensures
            final(self).wf(),
            final(self).titles == old(self).titles,
            final(self).select == if old(self).select > 0 {
                (old(self).select - 1) as int
            } else {
                2int
            },
    {
        if self.select > 0 {
            self.select -= 1;
        } else {
            self.select = self.titles.len() - 1;
        }
    }

    pub fn tab_type(&self) -> (r: TabType)
        ensures
            r == tab_of_select(self.select as int),
    {
        match self.select {
            0 => TabType::Inventory,
            1 => TabType::Tomato,
            2 => TabType::Statistics,
            _ => TabType::Inventory,
        }
    }
}

} // verus!
