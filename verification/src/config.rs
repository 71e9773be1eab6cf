//! Session configuration model: one entry per serial device (its port
//! identifier, baud rate and operator-chosen nickname), the project it
//! belongs to, and the plain data-transfer form the entries take in a saved
//! project file.  Reading, writing and prompting are I/O and live outside
//! the library; the pure decisions (matching saved entries against present
//! ports, validating a menu selection, resolving a baud-rate choice) are
//! here, verified.

use vstd::prelude::*;

verus! {

use crate::user_io::RaisedError;
use vstd::string::*;

/// A serial baud rate.
pub type BuadRate = u32;

/// The baud rate a device starts with until the operator picks another.
pub const DEFAULT_BAUD_RATE: BuadRate = 115_200;

/// One configured device: port identifier, baud rate, nickname.
pub struct ProcessorInfo {
    pub port_name: String,
    pub baud_rate: BuadRate,
    pub processor_name: String,
}

/// The saved form of one device entry in a project file.
pub struct ProcessorInfoDto {
    pub processor_name: String,
    pub baud_rate: BuadRate,
    pub port_name: String,
}

/// The saved form of a whole project file.
pub struct ConfigDto {
    pub project_name: String,
    pub processors: Vec<ProcessorInfoDto>,
}

/// A resolved session configuration.
pub struct Config {
    pub processors: Vec<ProcessorInfo>,
    pub project_name: String,
    pub project_path: String,
}

impl ProcessorInfo {
    /// A fresh entry for a discovered port, with the default baud rate and
    /// no nickname yet.
    pub fn new(port_name: String) -> (r: ProcessorInfo)
        ensures
            r.port_name@ == port_name@,
            r.baud_rate == DEFAULT_BAUD_RATE,
            r.processor_name@ == Seq::<char>::empty(),
    {
        ProcessorInfo { port_name, baud_rate: DEFAULT_BAUD_RATE, processor_name: String::new() }
    }

    /// An exact copy.
    pub fn duplicate(&self) -> (r: ProcessorInfo)
        ensures
            r == *self,
    {
        ProcessorInfo {
            port_name: self.port_name.clone(),
            baud_rate: self.baud_rate,
            processor_name: self.processor_name.clone(),
        }
    }

    /// The saved form of this entry.
    pub fn to_dto(&self) -> (r: ProcessorInfoDto)
        ensures
            r.port_name@ == self.port_name@,
            r.baud_rate == self.baud_rate,
            r.processor_name@ == self.processor_name@,
    {
        ProcessorInfoDto {
            processor_name: self.processor_name.clone(),
            baud_rate: self.baud_rate,
            port_name: self.port_name.clone(),
        }
    }

    /// This discovered port, configured as the saved entry says: the port
    /// identifier stays, baud rate and nickname come from the entry.
    pub fn duplicate_from_dto(&self, dto: &ProcessorInfoDto) -> (r: ProcessorInfo)
        ensures
            r.port_name@ == self.port_name@,
            r.baud_rate == dto.baud_rate,
            r.processor_name@ == dto.processor_name@,
    {
        ProcessorInfo {
            port_name: self.port_name.clone(),
            baud_rate: dto.baud_rate,
            processor_name: dto.processor_name.clone(),
        }
    }
}

/// Some discovered port carries the given name.
pub open spec fn has_port(procs: Seq<ProcessorInfo>, port: Seq<char>) -> bool {
    exists|j: int| 0 <= j < procs.len() && (#[trigger] procs[j]).port_name@ == port
}

/// The position of the first discovered port with the given name.
fn find_port(proc_info: &Vec<ProcessorInfo>, port: &String) -> (r: Option<usize>)
    ensures
        (match r {
            Some(j) => j < proc_info@.len() && proc_info@[j as int].port_name@ == port@,
            None => !has_port(proc_info@, port@),
        }),
{
    let mut j: usize = 0;
    while j < proc_info.len()
        invariant
            j <= proc_info@.len(),
            forall|q: int| 0 <= q < j ==> (#[trigger] proc_info@[q]).port_name@ != port@,
        decreases proc_info@.len() - j,
    {
        if proc_info[j].port_name == *port {
            return Some(j);
        }
        j = j + 1;
    }
    None
}

impl Config {
    /// Resolves a saved project file against the ports present now.  Every
    /// saved entry must name a port that is present; the resolved entry
    /// takes the saved baud rate and nickname.  Fails, naming the problem,
    /// exactly when some saved entry's port is absent.
    pub fn from_dto(project_path: &str, cfg: &ConfigDto, proc_info: &Vec<ProcessorInfo>) -> (r:
        Result<Config, RaisedError>)
        ensures
            (r is Ok <==> forall|i: int|
                0 <= i < cfg.processors@.len() ==> has_port(
                    proc_info@,
                    (#[trigger] cfg.processors@[i]).port_name@,
                )),
            (match r {
                Ok(c) => {
                    &&& c.project_name@ == cfg.project_name@
                    &&& c.project_path@ == project_path@
                    &&& c.processors@.len() == cfg.processors@.len()
                    &&& forall|i: int|
                        0 <= i < cfg.processors@.len() ==> {
                            let p = #[trigger] c.processors@[i];
                            &&& p.port_name@ == cfg.processors@[i].port_name@
                            &&& p.baud_rate == cfg.processors@[i].baud_rate
                            &&& p.processor_name@ == cfg.processors@[i].processor_name@
                        }
                },
                Err(e) => e@ == "port not found"@,
            }),
    {
        let mut processors: Vec<ProcessorInfo> = Vec::new();
        let mut i: usize = 0;
        while i < cfg.processors.len()
            invariant
                i <= cfg.processors@.len(),
                processors@.len() == i as int,
                forall|m: int|
                    0 <= m < i as int ==> has_port(
                        proc_info@,
                        (#[trigger] cfg.processors@[m]).port_name@,
                    ),
                forall|m: int|
                    0 <= m < i as int ==> {
                        let p = #[trigger] processors@[m];
                        &&& p.port_name@ == cfg.processors@[m].port_name@
                        &&& p.baud_rate == cfg.processors@[m].baud_rate
                        &&& p.processor_name@ == cfg.processors@[m].processor_name@
                    },
            decreases cfg.processors@.len() - i,
        {
            let dto = &cfg.processors[i];
            match find_port(proc_info, &dto.port_name) {
                Some(j) => {
                    processors.push(proc_info[j].duplicate_from_dto(dto));
                },
                None => {
                    return Err(RaisedError::new("port not found"));
                },
            }
            i = i + 1;
        }
        Ok(
            Config {
                processors,
                project_name: cfg.project_name.clone(),
                project_path: project_path.to_owned(),
            },
        )
    }
}

/// Validates a one-based menu entry against a list of `count` options:
/// entries `1..=count` select the option with that number; `0` and anything
/// past the end select nothing.
pub fn select_index(count: usize, entry: usize) -> (r: Option<usize>)
    ensures
        (match r {
            Some(idx) => 1 <= entry <= count && idx as int == entry as int - 1,
            None => entry == 0 || entry > count,
        }),
{
    if 1 <= entry && entry <= count {
        Some(entry - 1)
    } else {
        None
    }
}

/// Resolves the operator's baud-rate choice: `1` picks 115200, `2` picks
/// 3000000, anything else is itself the custom rate.
pub fn baud_choice(entry: u32) -> (r: BuadRate)
    ensures
        entry == 1 ==> r == 115200,
        entry == 2 ==> r == 3000000,
        entry != 1 && entry != 2 ==> r == entry,
{
    if entry == 1 {
        115200
    } else if entry == 2 {
        3000000
    } else {
        entry
    }
}

} // verus!
