//! The monitors whose windows are offered. They are captured once, when a switch begins, and do
//! not follow the pointer afterwards.

use vstd::prelude::*;

use crate::config::types::MonitorFilter;

verus! {

/// The monitor of the panel and that of the window in the foreground; zero where there is none.
#[derive(Debug, Clone, Copy, PartialEq, Eq, Structural)]
pub struct MonitorScope {
    pub panel: u64,
    pub foreground: u64,
}

impl Default for MonitorScope {
    fn default() -> (r: Self)
        ensures
            r == (MonitorScope { panel: 0, foreground: 0 }),
    {
        MonitorScope { panel: 0, foreground: 0 }
    }
}

impl MonitorScope {
    /// Whether windows on a monitor are offered.
    pub open spec fn offers(self, filter: MonitorFilter, monitor: u64) -> bool {
        match filter {
            MonitorFilter::All => true,
            MonitorFilter::Panel => self.panel != 0 && monitor == self.panel,
            MonitorFilter::Foreground => self.foreground != 0 && monitor == self.foreground,
        }
    }

    /// Whether windows on a monitor are offered.
    pub fn allows_monitor(self, filter: MonitorFilter, monitor: u64) -> (r: bool)
        ensures
            r == self.offers(filter, monitor),
    {
        match filter {
            MonitorFilter::All => true,
            MonitorFilter::Panel => self.panel != 0 && monitor == self.panel,
            MonitorFilter::Foreground => self.foreground != 0 && monitor == self.foreground,
        }
    }
}

/// Each filter but the one that takes all looks at its own monitor only.
pub proof fn filters_are_independent(
    scope: MonitorScope,
    other: MonitorScope,
    monitor: u64,
)
    ensures
        scope.panel == other.panel ==> scope.offers(MonitorFilter::Panel, monitor) == other.offers(
            MonitorFilter::Panel,
            monitor,
        ),
        scope.foreground == other.foreground ==> scope.offers(MonitorFilter::Foreground, monitor)
            == other.offers(MonitorFilter::Foreground, monitor),
        scope.offers(MonitorFilter::All, monitor),
{
}

/// Which windows are offered: all of them, those on the monitor of the panel, or those on the
/// monitor of the window in the foreground. Windows on no monitor are offered only with all.
pub proof fn offered_windows(scope: MonitorScope, monitor: u64)
    ensures
        scope.offers(MonitorFilter::All, monitor),
        monitor != 0 ==> (scope.offers(MonitorFilter::Panel, monitor) <==> monitor == scope.panel),
        monitor != 0 ==> (scope.offers(MonitorFilter::Foreground, monitor) <==> monitor
            == scope.foreground),
        !scope.offers(MonitorFilter::Panel, 0),
        !scope.offers(MonitorFilter::Foreground, 0),
{
}

}
