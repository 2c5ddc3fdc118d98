//! A single cabin's private order book.
//!
//! One boolean per `(kind, floor)` pair, with the same stop, continue
//! and turn-around decisions as the replicated table, but purely local:
//! no statuses, no acknowledgements, no peers. The cost here adds a
//! direction penalty: an order behind the cabin's back costs a full
//! building height extra.

use vstd::prelude::*;
use crate::elev_io::{Button, Floor, MotorDir, N_FLOORS};

verus! {

/// Whether any order is flagged in `orders` on the floors strictly
/// beyond `floor` in direction `dir`, across the three kinds.
pub open spec fn spec_any_order_in_window(
    up: Seq<bool>,
    down: Seq<bool>,
    internal: Seq<bool>,
    floor: int,
    dir: MotorDir,
) -> bool {
    exists|f: int|
        crate::request_handler::spec_in_window(f, floor, dir) && (up[f] || down[f] || internal[f])
}

/// Distance plus direction penalty: serving an order from `floor`
/// costs its distance, plus a full building height when the order lies
/// against the cabin's travel direction.
pub open spec fn spec_order_cost(ordered: int, floor: int, dir: MotorDir) -> int {
    let dist = if ordered >= floor {
        ordered - floor
    } else {
        floor - ordered
    };
    let elevator_direction: int = if dir is Down {
        0
    } else {
        1
    };
    let order_direction: int = if ordered < floor {
        0
    } else {
        1
    };
    dist + (if elevator_direction == order_direction {
        0
    } else {
        N_FLOORS as int
    })
}

/// One flag per `(kind, floor)` pair: hall up, hall down, cabin
/// internal.
pub struct OrderHandler {
    pub orders_up: Vec<bool>,
    pub orders_down: Vec<bool>,
    pub orders_internal: Vec<bool>,
}

impl OrderHandler {
    /// One flag per floor in each of the three books.
    pub open spec fn wf(&self) -> bool {
        &&& self.orders_up@.len() == N_FLOORS
        &&& self.orders_down@.len() == N_FLOORS
        &&& self.orders_internal@.len() == N_FLOORS
    }

    /// An empty book: no orders anywhere.
    pub fn new() -> (h: OrderHandler)
        ensures
            h.wf(),
            forall|f: int|
                0 <= f < N_FLOORS ==> !h.orders_up@[f] && !h.orders_down@[f]
                    && !h.orders_internal@[f],
    {
        let mut up: Vec<bool> = Vec::new();
        let mut down: Vec<bool> = Vec::new();
        let mut internal: Vec<bool> = Vec::new();
        let mut f: usize = 0;
        while f < N_FLOORS
            invariant
                f <= N_FLOORS,
                up@.len() == f,
                down@.len() == f,
                internal@.len() == f,
                forall|j: int| 0 <= j < f ==> !up@[j] && !down@[j] && !internal@[j],
            decreases N_FLOORS - f,
        {
            up.push(false);
            down.push(false);
            internal.push(false);
            f = f + 1;
        }
        OrderHandler { orders_up: up, orders_down: down, orders_internal: internal }
    }

    /// Flag the order behind a pressed button; a reading between
    /// floors or a floor out of range flags nothing.
    pub fn new_floor_order(&mut self, button: Button)
        requires
            old(self).wf(),
        ensures
            final(self).wf(),
            (match button {
                Button::CallUp(Floor::At(f)) if f < N_FLOORS => {
                    &&& final(self).orders_up@ == old(self).orders_up@.update(f as int, true)
                    &&& final(self).orders_down == old(self).orders_down
                    &&& final(self).orders_internal == old(self).orders_internal
                },
                Button::CallDown(Floor::At(f)) if f < N_FLOORS => {
                    &&& final(self).orders_up == old(self).orders_up
                    &&& final(self).orders_down@ == old(self).orders_down@.update(f as int, true)
                    &&& final(self).orders_internal == old(self).orders_internal
                },
                Button::Internal(Floor::At(f)) if f < N_FLOORS => {
                    &&& final(self).orders_up == old(self).orders_up
                    &&& final(self).orders_down == old(self).orders_down
                    &&& final(self).orders_internal@ == old(self).orders_internal@.update(
                        f as int,
                        true,
                    )
                },
                _ => *final(self) == *old(self),
            }),
    {
        match button {
            Button::CallUp(Floor::At(floor)) => {
                if floor < N_FLOORS {
                    self.orders_up.set(floor, true);
                }
            },
            Button::CallDown(Floor::At(floor)) => {
                if floor < N_FLOORS {
                    self.orders_down.set(floor, true);
                }
            },
            Button::Internal(Floor::At(floor)) => {
                if floor < N_FLOORS {
                    self.orders_internal.set(floor, true);
                }
            },
            _ => {},
        }
    }

    /// The cabin serves `floor`: clear its internal order and the hall
    /// order matching the travel direction.
    pub fn clear_orders_here(&mut self, floor: usize, direction: MotorDir)
        requires
            old(self).wf(),
            floor < N_FLOORS,
        ensures
            final(self).wf(),
            final(self).orders_internal@ == old(self).orders_internal@.update(floor as int, false),
            (match direction {
                MotorDir::Up => final(self).orders_up@ == old(self).orders_up@.update(
                    floor as int,
                    false,
                ) && final(self).orders_down == old(self).orders_down,
                MotorDir::Down => final(self).orders_down@ == old(self).orders_down@.update(
                    floor as int,
                    false,
                ) && final(self).orders_up == old(self).orders_up,
                MotorDir::Stop => final(self).orders_up == old(self).orders_up && final(self).orders_down == old(self).orders_down,
            }),
    {
        self.orders_internal.set(floor, false);
        match direction {
            MotorDir::Up => self.orders_up.set(floor, false),
            MotorDir::Down => self.orders_down.set(floor, false),
            MotorDir::Stop => (),
        }
    }

    /// Whether any order beyond `floor` in direction `dir` is flagged.
    fn orders_in_direction(&self, floor: usize, direction: MotorDir) -> (r: bool)
        requires
            self.wf(),
            floor < N_FLOORS,
            !(direction is Stop),
        ensures
            r == spec_any_order_in_window(
                self.orders_up@,
                self.orders_down@,
                self.orders_internal@,
                floor as int,
                direction,
            ),
    {
        let (lo, hi) = match direction {
            MotorDir::Down => (0usize, floor),
            MotorDir::Up => (floor + 1, N_FLOORS),
            MotorDir::Stop => (0usize, 0usize),
        };
        proof {
            assert(forall|f: int|
                crate::request_handler::spec_in_window(f, floor as int, direction) <==> lo <= f
                    < hi);
        }
        let mut f = lo;
        while f < hi
            invariant
                lo <= f,
                hi <= N_FLOORS,
                self.wf(),
                forall|f2: int|
                    crate::request_handler::spec_in_window(f2, floor as int, direction) <==> lo
                        <= f2 < hi,
                forall|f2: int|
                    #![trigger self.orders_up@[f2]]
                    lo <= f2 < f ==> !self.orders_up@[f2] && !self.orders_down@[f2]
                        && !self.orders_internal@[f2],
            decreases hi - f,
        {
            if self.orders_up[f] || self.orders_down[f] || self.orders_internal[f] {
                return true;
            }
            let ghost f_prev = f as int;
            f = f + 1;
            proof {
                assert forall|f2: int|
                    lo <= f2 < f implies !self.orders_up@[f2] && !self.orders_down@[f2]
                        && !self.orders_internal@[f2] by {
                    assert(f == f_prev + 1);
                    if f2 < f_prev {
                        assert(lo <= f2 < f_prev);
                    }
                }
            }
        }
        false
    }

    /// Whether the cabin should stop at `floor`: its internal order, or
    /// the hall order matching the travel direction.
    pub fn should_stop(&self, floor: usize, direction: MotorDir) -> (r: bool)
        requires
            self.wf(),
            floor < N_FLOORS,
        ensures
            r == (match direction {
                MotorDir::Up => self.orders_up@[floor as int] || self.orders_internal@[floor as int],
                MotorDir::Down => self.orders_down@[floor as int]
                    || self.orders_internal@[floor as int],
                MotorDir::Stop => false,
            }),
    {
        match direction {
            MotorDir::Up => self.orders_up[floor] || self.orders_internal[floor],
            MotorDir::Down => self.orders_down[floor] || self.orders_internal[floor],
            MotorDir::Stop => false,
        }
    }

    /// Whether any order lies further on in the travel direction.
    pub fn should_continue(&self, floor: usize, direction: MotorDir) -> (r: bool)
        requires
            self.wf(),
            floor < N_FLOORS,
            !(direction is Stop),
        ensures
            r == spec_any_order_in_window(
                self.orders_up@,
                self.orders_down@,
                self.orders_internal@,
                floor as int,
                direction,
            ),
    {
        self.orders_in_direction(floor, direction)
    }

    /// Whether the cabin should turn around: an order in the opposite
    /// window, or the opposite hall order at this very floor.
    pub fn should_change_direction(&self, floor: usize, direction: MotorDir) -> (r: bool)
        requires
            self.wf(),
            floor < N_FLOORS,
            !(direction is Stop),
        ensures
            r == ({
                let opposite = crate::request_handler::spec_opposite(direction);
                ||| spec_any_order_in_window(
                    self.orders_up@,
                    self.orders_down@,
                    self.orders_internal@,
                    floor as int,
                    opposite,
                )
                ||| (if direction is Down {
                    self.orders_up@[floor as int]
                } else {
                    self.orders_down@[floor as int]
                })
            }),
    {
        let opposite_direction = match direction {
            MotorDir::Down => MotorDir::Up,
            MotorDir::Up => MotorDir::Down,
            MotorDir::Stop => MotorDir::Stop,
        };
        if self.orders_in_direction(floor, opposite_direction) {
            return true;
        }
        let orders_opposite_here = match direction {
            MotorDir::Down => self.orders_up[floor],
            MotorDir::Up => self.orders_down[floor],
            MotorDir::Stop => false,
        };
        orders_opposite_here
    }

    /// Whether this cabin's cost for the order is no worse than the
    /// cheaper of the two others'.
    pub fn local_is_minimal_cost(
        &self,
        ordered_floor: usize,
        floor: usize,
        direction: MotorDir,
        other_floors: [usize; 2],
        other_directions: [MotorDir; 2],
    ) -> (r: bool)
        requires
            ordered_floor < N_FLOORS,
            floor < N_FLOORS,
            other_floors[0] < N_FLOORS,
            other_floors[1] < N_FLOORS,
        ensures
            r == ({
                let local = spec_order_cost(ordered_floor as int, floor as int, direction);
                let e0 = spec_order_cost(
                    ordered_floor as int,
                    other_floors[0] as int,
                    other_directions[0],
                );
                let e1 = spec_order_cost(
                    ordered_floor as int,
                    other_floors[1] as int,
                    other_directions[1],
                );
                local <= e0 && local <= e1
            }),
    {
        let local_cost = self.calculate_cost(ordered_floor, floor, direction);
        let extern_cost_0 = self.calculate_cost(ordered_floor, other_floors[0], other_directions[0]);
        let extern_cost_1 = self.calculate_cost(ordered_floor, other_floors[1], other_directions[1]);
        local_cost <= extern_cost_0 && local_cost <= extern_cost_1
    }

    /// Distance plus direction penalty of serving `ordered_floor` from
    /// `floor` while travelling `direction`.
    pub fn calculate_cost(&self, ordered_floor: usize, floor: usize, direction: MotorDir) -> (cost:
        usize)
        requires
            ordered_floor < N_FLOORS,
            floor < N_FLOORS,
        ensures
            cost == spec_order_cost(ordered_floor as int, floor as int, direction),
    {
        let distance_cost = if ordered_floor >= floor {
            ordered_floor - floor
        } else {
            floor - ordered_floor
        };
        let elevator_direction: usize = match direction {
            MotorDir::Down => 0,
            _ => 1,
        };
        let order_direction: usize = if ordered_floor < floor {
            0
        } else {
            1
        };
        let direction_cost = if elevator_direction == order_direction {
            0
        } else {
            N_FLOORS
        };
        distance_cost + direction_cost
    }
}

} // verus!
