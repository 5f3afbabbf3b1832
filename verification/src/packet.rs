//! The snapshot record: one observation of a host, as the server sends it
//! and the client shows it.

use vstd::prelude::*;
use crate::clock::{has_date, pacific_text, print_pacific, seconds_have_date};
use crate::json::{number_of, number_zero, JsonNumber};
use crate::text::{decimal, push_decimal, push_signed_decimal, signed_decimal};
use vstd::string::StringExecFns;

verus! {

/// The characters of each string of a sequence, in order.
pub open spec fn texts(items: Seq<String>) -> Seq<Seq<char>> {
    Seq::new(items.len(), |i: int| items[i]@)
}

/// One observation of a host.
///
/// `date` counts seconds since the epoch, in UTC. The lists hold descriptive
/// lines that are shown as they are. `avg_cpu_usage` is a percentage, held
/// as the JSON number that goes over the wire; as such it is always finite.
#[derive(Debug)]
pub struct ServerInfo {
    pub date: i64,
    pub disks: Vec<String>,
    pub net_interfaces: Vec<String>,
    pub components: Vec<String>,
    pub total_ram: u64,
    pub used_memory: u64,
    pub system_name: String,
    pub kernel_version: String,
    pub os_version: String,
    pub host_name: String,
    pub total_cpus: usize,
    pub cpus: Vec<String>,
    pub avg_cpu_usage: serde_json::Number,
}

/// What a snapshot record holds.
pub struct ServerInfoView {
    pub date: i64,
    pub disks: Seq<Seq<char>>,
    pub net_interfaces: Seq<Seq<char>>,
    pub components: Seq<Seq<char>>,
    pub total_ram: u64,
    pub used_memory: u64,
    pub system_name: Seq<char>,
    pub kernel_version: Seq<char>,
    pub os_version: Seq<char>,
    pub host_name: Seq<char>,
    pub total_cpus: usize,
    pub cpus: Seq<Seq<char>>,
    pub avg_cpu_usage: JsonNumber,
}

impl View for ServerInfo {
    type V = ServerInfoView;

    open spec fn view(&self) -> ServerInfoView {
        ServerInfoView {
            date: self.date,
            disks: texts(self.disks@),
            net_interfaces: texts(self.net_interfaces@),
            components: texts(self.components@),
            total_ram: self.total_ram,
            used_memory: self.used_memory,
            system_name: self.system_name@,
            kernel_version: self.kernel_version@,
            os_version: self.os_version@,
            host_name: self.host_name@,
            total_cpus: self.total_cpus,
            cpus: texts(self.cpus@),
            avg_cpu_usage: number_of(self.avg_cpu_usage),
        }
    }
}

/// A copy of a list of lines.
fn clone_lines(items: &Vec<String>) -> (r: Vec<String>)
    ensures
        texts(r@) == texts(items@),
{
    let mut r: Vec<String> = Vec::new();
    let mut i: usize = 0;
    while i < items.len()
        invariant
            i <= items.len(),
            r.len() == i,
            forall|k: int| 0 <= k < i ==> r@[k]@ == items@[k]@,
        decreases items.len() - i,
    {
        r.push(items[i].clone());
        i += 1;
    }
    assert(texts(r@) =~= texts(items@));
    r
}

impl Clone for ServerInfo {
    fn clone(&self) -> (r: ServerInfo)
        ensures
            r@ == self@,
    {
        ServerInfo {
            date: self.date,
            disks: clone_lines(&self.disks),
            net_interfaces: clone_lines(&self.net_interfaces),
            components: clone_lines(&self.components),
            total_ram: self.total_ram,
            used_memory: self.used_memory,
            system_name: self.system_name.clone(),
            kernel_version: self.kernel_version.clone(),
            os_version: self.os_version.clone(),
            host_name: self.host_name.clone(),
            total_cpus: self.total_cpus,
            cpus: clone_lines(&self.cpus),
            avg_cpu_usage: self.avg_cpu_usage.clone(),
        }
    }
}

/// The record of a host of which nothing is known yet: time zero, no lines,
/// empty names, no processors and a usage of zero.
pub open spec fn blank_snapshot() -> ServerInfoView {
    ServerInfoView {
        date: 0,
        disks: Seq::empty(),
        net_interfaces: Seq::empty(),
        components: Seq::empty(),
        total_ram: 0,
        used_memory: 0,
        system_name: Seq::empty(),
        kernel_version: Seq::empty(),
        os_version: Seq::empty(),
        host_name: Seq::empty(),
        total_cpus: 0,
        cpus: Seq::empty(),
        avg_cpu_usage: JsonNumber::Real(0),
    }
}

impl Default for ServerInfo {
    fn default() -> (r: ServerInfo)
        ensures
            r@ == blank_snapshot(),
    {
        let r = ServerInfo {
            date: 0,
            disks: Vec::new(),
            net_interfaces: Vec::new(),
            components: Vec::new(),
            total_ram: 0,
            used_memory: 0,
            system_name: String::new(),
            kernel_version: String::new(),
            os_version: String::new(),
            host_name: String::new(),
            total_cpus: 0,
            cpus: Vec::new(),
            avg_cpu_usage: number_zero(),
        };
        assert(texts(r.disks@) =~= Seq::<Seq<char>>::empty());
        assert(texts(r.net_interfaces@) =~= Seq::<Seq<char>>::empty());
        assert(texts(r.components@) =~= Seq::<Seq<char>>::empty());
        assert(texts(r.cpus@) =~= Seq::<Seq<char>>::empty());
        r
    }
}

/// The usage to record for a host: the mean that was measured, and the
/// floating-point zero where the host has no processors or no mean could
/// be had.
pub open spec fn usage_or_zero(processors: int, mean: Option<JsonNumber>) -> JsonNumber {
    match mean {
        Some(usage) => if processors == 0 {
            JsonNumber::Real(0)
        } else {
            usage
        },
        None => JsonNumber::Real(0),
    }
}

/// The given lines, each with a line feed after it.
pub open spec fn lines(items: Seq<Seq<char>>) -> Seq<char>
    decreases items.len(),
{
    if items.len() == 0 {
        Seq::empty()
    } else {
        lines(items.drop_last()) + items.last() + seq!['\n']
    }
}

/// One fact of a report: what it is, its value, and a line feed.
pub open spec fn fact(label: Seq<char>, value: Seq<char>) -> Seq<char> {
    label + value + seq!['\n']
}

/// A snapshot as a report in plain text, one fact to a line. The usage
/// stands in it as the text that is given for it.
pub open spec fn report(s: ServerInfoView, usage: Seq<char>) -> Seq<char> {
    fact("Date: "@, signed_decimal(s.date as int))
        + "Disks: "@ + lines(s.disks)
        + "Network Interfaces: "@ + lines(s.net_interfaces)
        + fact("Total Ram: "@, decimal(s.total_ram as nat))
        + fact("Used Memory: "@, decimal(s.used_memory as nat))
        + fact("System Name: "@, s.system_name)
        + fact("Kernel Version: "@, s.kernel_version)
        + fact("OS Version: "@, s.os_version)
        + fact("Host Name: "@, s.host_name)
        + fact("Total CPUS: "@, decimal(s.total_cpus as nat))
        + lines(s.cpus)
        + "Average CPU Usage: "@ + usage
}

fn push_lines(text: &mut String, items: &Vec<String>)
    ensures
        final(text)@ == old(text)@ + lines(texts(items@)),
{
    let ghost start = text@;
    let mut i: usize = 0;
    while i < items.len()
        invariant
            i <= items.len(),
            text@ == start + lines(texts(items@).take(i as int)),
        decreases items.len() - i,
    {
        text.append(items[i].as_str());
        text.push('\n');
        proof {
            let all = texts(items@);
            assert(all.take(i + 1).drop_last() =~= all.take(i as int));
            assert(all.take(i + 1).last() == items@[i as int]@);
            assert(text@ =~= start + lines(all.take(i + 1)));
        }
        i += 1;
    }
    proof {
        assert(texts(items@).take(items.len() as int) =~= texts(items@));
    }
}

impl ServerInfo {
    /// The record of one observation.
    ///
    /// The number of processors is the number of their lines. The usage is
    /// the mean that was measured; it is the floating-point zero for a host
    /// without processors, and where no mean could be had.
    pub fn new(
        date: i64,
        disks: Vec<String>,
        net_interfaces: Vec<String>,
        components: Vec<String>,
        total_ram: u64,
        used_memory: u64,
        system_name: String,
        kernel_version: String,
        os_version: String,
        host_name: String,
        cpus: Vec<String>,
        mean_usage: Option<serde_json::Number>,
    ) -> (r: ServerInfo)
        ensures
            r@ == (ServerInfoView {
                date,
                disks: texts(disks@),
                net_interfaces: texts(net_interfaces@),
                components: texts(components@),
                total_ram,
                used_memory,
                system_name: system_name@,
                kernel_version: kernel_version@,
                os_version: os_version@,
                host_name: host_name@,
                total_cpus: cpus.len(),
                cpus: texts(cpus@),
                avg_cpu_usage: usage_or_zero(
                    cpus.len() as int,
                    match mean_usage {
                        Some(n) => Some(number_of(n)),
                        None => None,
                    },
                ),
            }),
    {
        let total_cpus = cpus.len();
        let avg_cpu_usage = match mean_usage {
            Some(usage) => if total_cpus == 0 {
                number_zero()
            } else {
                usage
            },
            None => number_zero(),
        };
        ServerInfo {
            date,
            disks,
            net_interfaces,
            components,
            total_ram,
            used_memory,
            system_name,
            kernel_version,
            os_version,
            host_name,
            total_cpus,
            cpus,
            avg_cpu_usage,
        }
    }

    /// The moment of the snapshot as a date and time of day on the Pacific
    /// coast of the United States, in text.
    pub fn get_date_time(&self) -> (r: String)
        requires
            has_date(self.date),
        ensures
            r@ == pacific_text(self.date),
    {
        print_pacific(self.date)
    }

    /// The same, for any snapshot: `None` where the moment is beyond the
    /// dates that can be printed.
    pub fn date_time_text(&self) -> (r: Option<String>)
        ensures
            match r {
                Some(text) => has_date(self.date) && text@ == pacific_text(self.date),
                None => !has_date(self.date),
            },
    {
        if seconds_have_date(self.date) {
            Some(self.get_date_time())
        } else {
            None
        }
    }

    /// The snapshot as a report in plain text. The usage is a
    /// floating-point number, so its text is made by the caller and stands
    /// in the report as it is given.
    pub fn describe(&self, usage: &str) -> (text: String)
        ensures
            text@ == report(self@, usage@),
    {
        let mut text = String::new();
        text.append("Date: ");
        push_signed_decimal(&mut text, self.date);
        text.push('\n');
        text.append("Disks: ");
        push_lines(&mut text, &self.disks);
        text.append("Network Interfaces: ");
        push_lines(&mut text, &self.net_interfaces);
        text.append("Total Ram: ");
        push_decimal(&mut text, self.total_ram);
        text.push('\n');
        text.append("Used Memory: ");
        push_decimal(&mut text, self.used_memory);
        text.push('\n');
        text.append("System Name: ");
        text.append(self.system_name.as_str());
        text.push('\n');
        text.append("Kernel Version: ");
        text.append(self.kernel_version.as_str());
        text.push('\n');
        text.append("OS Version: ");
        text.append(self.os_version.as_str());
        text.push('\n');
        text.append("Host Name: ");
        text.append(self.host_name.as_str());
        text.push('\n');
        text.append("Total CPUS: ");
        push_decimal(&mut text, self.total_cpus as u64);
        text.push('\n');
        push_lines(&mut text, &self.cpus);
        text.append("Average CPU Usage: ");
        text.append(usage);
        assert(text@ =~= report(self@, usage@));
        text
    }
}

} // verus!
