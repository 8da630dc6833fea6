//! Payloads: the structured-query command, the path of its dump file, and the
//! `NAME=VALUE` lines of the host's environment.
use vstd::prelude::*;
use vstd::string::*;

use crate::dump::{run_end, scan_run, CharClass};
use crate::session::{request_of, sent, Command, Genesis};

verus! {

/// The parameters of a structured query.
#[derive(PartialEq, Eq, Structural, Hash, Clone, Copy, Debug)]
pub enum InfoParamType {
    EntityPath,
    DataType,
    Parameters,
    SerialNumber,
    Options,
    Help,
    EntityType,
    Units,
}

/// The flag and value that a parameter adds to the query.
pub open spec fn param_fragment(k: InfoParamType, v: Seq<char>) -> Seq<char> {
    match k {
        InfoParamType::EntityType => "-t "@ + v,
        InfoParamType::DataType => "-d "@ + v,
        InfoParamType::Parameters => "-p "@ + v,
        InfoParamType::SerialNumber => "-s "@ + v,
        InfoParamType::Options => "-o "@ + v,
        InfoParamType::Help => "-help"@,
        InfoParamType::EntityPath => "-e "@ + v,
        InfoParamType::Units => "units="@ + v + ","@,
    }
}

pub open spec fn params_view(params: Seq<(InfoParamType, String)>) -> Seq<(InfoParamType, Seq<char>)> {
    params.map_values(|p: (InfoParamType, String)| (p.0, p.1@))
}

/// The fragment for parameter `k`: from its last occurrence in `params`, empty if
/// it does not occur.
pub open spec fn param_slot(params: Seq<(InfoParamType, Seq<char>)>, k: InfoParamType) -> Seq<char>
    decreases params.len(),
{
    if params.len() == 0 {
        Seq::empty()
    } else if params.last().0 == k {
        param_fragment(k, params.last().1)
    } else {
        param_slot(params.drop_last(), k)
    }
}

/// The units fragment, `units=mm,` when no unit is given.
pub open spec fn units_slot(params: Seq<(InfoParamType, Seq<char>)>) -> Seq<char> {
    let u = param_slot(params, InfoParamType::Units);
    if u.len() == 0 {
        "units=mm,"@
    } else {
        u
    }
}

/// The payload of a structured query that writes its dump to `dump_file`.
pub open spec fn info_payload(params: Seq<(InfoParamType, Seq<char>)>, dump_file: Seq<char>) -> Seq<
    char,
> {
    "info,out_file="@ + dump_file + ",write_mode=replace,"@ + units_slot(params) + "args="@
        + param_slot(params, InfoParamType::EntityType) + " "@ + param_slot(
        params,
        InfoParamType::EntityPath,
    ) + " "@ + param_slot(params, InfoParamType::DataType) + " "@ + param_slot(
        params,
        InfoParamType::Parameters,
    ) + " "@ + param_slot(params, InfoParamType::SerialNumber) + " "@ + param_slot(
        params,
        InfoParamType::Options,
    ) + " "@ + param_slot(params, InfoParamType::Help) + " -m script"@
}

fn prefixed(flag: &str, v: &String) -> (r: String)
    ensures
        r@ == flag@ + v@,
{
    let r = String::from_str(flag);
    r.concat(v.as_str())
}

fn fragment(k: InfoParamType, v: &String) -> (r: String)
    ensures
        r@ == param_fragment(k, v@),
{
    match k {
        InfoParamType::EntityType => prefixed("-t ", v),
        InfoParamType::DataType => prefixed("-d ", v),
        InfoParamType::Parameters => prefixed("-p ", v),
        InfoParamType::SerialNumber => prefixed("-s ", v),
        InfoParamType::Options => prefixed("-o ", v),
        InfoParamType::Help => String::from_str("-help"),
        InfoParamType::EntityPath => prefixed("-e ", v),
        InfoParamType::Units => {
            let mut r = prefixed("units=", v);
            r.append(",");
            r
        },
    }
}

/// Builds the payload of a structured query; for a parameter given more than
/// once, the last value counts.
pub fn info_request(params: &Vec<(InfoParamType, String)>, dump_file: &str) -> (r: String)
    ensures
        r@ == info_payload(params_view(params@), dump_file@),
{
    let ghost pv = params_view(params@);
    let mut entity_path = String::new();
    let mut data_type = String::new();
    let mut parameters = String::new();
    let mut serial_number = String::new();
    let mut options = String::new();
    let mut help = String::new();
    let mut entity_type = String::new();
    let mut units = String::new();
    let mut i: usize = 0;
    while i < params.len()
        invariant
            i <= params.len(),
            pv == params_view(params@),
            entity_path@ == param_slot(pv.take(i as int), InfoParamType::EntityPath),
            data_type@ == param_slot(pv.take(i as int), InfoParamType::DataType),
            parameters@ == param_slot(pv.take(i as int), InfoParamType::Parameters),
            serial_number@ == param_slot(pv.take(i as int), InfoParamType::SerialNumber),
            options@ == param_slot(pv.take(i as int), InfoParamType::Options),
            help@ == param_slot(pv.take(i as int), InfoParamType::Help),
            entity_type@ == param_slot(pv.take(i as int), InfoParamType::EntityType),
            units@ == param_slot(pv.take(i as int), InfoParamType::Units),
        decreases params.len() - i,
    {
        proof {
            assert(pv.take(i + 1).drop_last() =~= pv.take(i as int));
            assert(pv.take(i + 1).last() == pv[i as int]);
        }
        let k = params[i].0;
        let f = fragment(k, &params[i].1);
        match k {
            InfoParamType::EntityType => {
                entity_type = f;
            },
            InfoParamType::DataType => {
                data_type = f;
            },
            InfoParamType::Parameters => {
                parameters = f;
            },
            InfoParamType::SerialNumber => {
                serial_number = f;
            },
            InfoParamType::Options => {
                options = f;
            },
            InfoParamType::Help => {
                help = f;
            },
            InfoParamType::EntityPath => {
                entity_path = f;
            },
            InfoParamType::Units => {
                units = f;
            },
        }
        i = i + 1;
    }
    proof {
        assert(pv.take(params.len() as int) =~= pv);
    }
    if units.unicode_len() == 0 {
        units = String::from_str("units=mm,");
    }
    let mut r = String::from_str("info,out_file=");
    r.append(dump_file);
    r.append(",write_mode=replace,");
    r.append(units.as_str());
    r.append("args=");
    r.append(entity_type.as_str());
    r.append(" ");
    r.append(entity_path.as_str());
    r.append(" ");
    r.append(data_type.as_str());
    r.append(" ");
    r.append(parameters.as_str());
    r.append(" ");
    r.append(serial_number.as_str());
    r.append(" ");
    r.append(options.as_str());
    r.append(" ");
    r.append(help.as_str());
    r.append(" -m script");
    r
}

pub open spec fn digit(d: nat) -> char {
    if d == 0 {
        '0'
    } else if d == 1 {
        '1'
    } else if d == 2 {
        '2'
    } else if d == 3 {
        '3'
    } else if d == 4 {
        '4'
    } else if d == 5 {
        '5'
    } else if d == 6 {
        '6'
    } else if d == 7 {
        '7'
    } else if d == 8 {
        '8'
    } else {
        '9'
    }
}

/// The decimal digits of `n`.
pub open spec fn decimal(n: nat) -> Seq<char>
    decreases n,
{
    if n < 10 {
        seq![digit(n)]
    } else {
        decimal(n / 10) + seq![digit(n % 10)]
    }
}

fn digit_str(d: u32) -> (r: &'static str)
    requires
        d < 10,
    ensures
        r@ == seq![digit(d as nat)],
{
    proof {
        reveal_strlit("0");
        reveal_strlit("1");
        reveal_strlit("2");
        reveal_strlit("3");
        reveal_strlit("4");
        reveal_strlit("5");
        reveal_strlit("6");
        reveal_strlit("7");
        reveal_strlit("8");
        reveal_strlit("9");
    }
    let r = if d == 0 {
        "0"
    } else if d == 1 {
        "1"
    } else if d == 2 {
        "2"
    } else if d == 3 {
        "3"
    } else if d == 4 {
        "4"
    } else if d == 5 {
        "5"
    } else if d == 6 {
        "6"
    } else if d == 7 {
        "7"
    } else if d == 8 {
        "8"
    } else {
        "9"
    };
    assert(r@ =~= seq![digit(d as nat)]);
    r
}

fn decimal_string(n: u32) -> (r: String)
    ensures
        r@ == decimal(n as nat),
    decreases n,
{
    if n < 10 {
        String::from_str(digit_str(n))
    } else {
        let mut r = decimal_string(n / 10);
        r.append(digit_str(n % 10));
        r
    }
}

/// Where the host writes the dump of a structured query: a file under the host's
/// base directory, named after the client's process.
pub open spec fn dump_path(base_dir: Seq<char>, pid: nat) -> Seq<char> {
    base_dir + "/share/tmp/info_csh."@ + decimal(pid)
}

/// The dump file of the process `pid` under the host's base directory.
pub fn dump_file_path(base_dir: &str, pid: u32) -> (r: String)
    ensures
        r@ == dump_path(base_dir@, pid as nat),
{
    let mut r = String::from_str(base_dir);
    r.append("/share/tmp/info_csh.");
    let d = decimal_string(pid);
    r.append(d.as_str());
    r
}

/// An environment line that ends the host's environment listing.
pub open spec fn is_end_line(s: Seq<char>) -> bool {
    s.len() >= 3 && s[0] == 'E' && s[1] == 'N' && s[2] == 'D'
}

/// Whether `line` ends the host's environment listing.
pub fn is_environment_end(line: &str) -> (r: bool)
    ensures
        r == is_end_line(line@),
{
    let len = line.unicode_len();
    len >= 3 && line.get_char(0) == 'E' && line.get_char(1) == 'N' && line.get_char(2) == 'D'
}

/// A `NAME=VALUE` line: the name before the first `=`, the value up to the next
/// `=` or the end. A line without `=` is not a variable.
pub open spec fn env_var_of(s: Seq<char>) -> Option<(Seq<char>, Seq<char>)> {
    let e = run_end(s, 0, CharClass::NotEquals);
    if e < s.len() {
        Some((s.subrange(0, e), s.subrange(e + 1, run_end(s, e + 1, CharClass::NotEquals))))
    } else {
        None
    }
}

/// Reads a `NAME=VALUE` line of the host's environment.
pub fn environment_variable(line: &str) -> (r: Option<(String, String)>)
    ensures
        r.deep_view() == env_var_of(line@),
{
    let len = line.unicode_len();
    let e = scan_run(line, len, 0, CharClass::NotEquals);
    if e < len {
        let v = scan_run(line, len, e + 1, CharClass::NotEquals);
        let name = String::from_str(line.substring_char(0, e));
        let value = String::from_str(line.substring_char(e + 1, v));
        Some((name, value))
    } else {
        None
    }
}

impl Genesis {
    /// Starts a structured query: a generic command whose payload asks the host
    /// to write its dump to `dump_file`. The dump's lines then go to
    /// `parse_info_file`.
    pub fn info(&mut self, params: &Vec<(InfoParamType, String)>, dump_file: &str) -> (r: String)
        requires
            old(self).wf(),
            old(self).model().awaiting is None,
        ensures
            final(self).wf(),
            final(self).model() == sent(Command::Com),
            r@ == request_of(Command::Com, info_payload(params_view(params@), dump_file@)),
    {
        let payload = info_request(params, dump_file);
        self.com(payload.as_str())
    }

    #[allow(non_snake_case)]
    pub fn INFO(&mut self, params: &Vec<(InfoParamType, String)>, dump_file: &str) -> (r: String)
        requires
            old(self).wf(),
            old(self).model().awaiting is None,
        ensures
            final(self).wf(),
            final(self).model() == sent(Command::Com),
            r@ == request_of(Command::Com, info_payload(params_view(params@), dump_file@)),
    {
        self.info(params, dump_file)
    }
}

} // verus!
