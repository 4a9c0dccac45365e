//! Service-manager probes: the running services list and the control-group
//! resource table, the latter kept sorted by control-group path.

use vstd::prelude::*;
use vstd::string::*;

use crate::order::{keyed_insert, lemma_keyed_insert_sorted, lemma_lex_lt_iff, lex_lt, sorted_by_key};
use crate::probe::ProbeError;
use crate::text::{
    drop_prefix, has_suffix, join_from, join_spaced, split_lines, split_ws, str_eq,
    str_has_suffix, str_lex_le, text_lines, views, ws_tokens,
};

verus! {

// ---------------------------------------------------------------------------
// Running services
// ---------------------------------------------------------------------------
/// One running service: its unit name and its human-readable description.
#[derive(Debug, Clone, PartialEq, Eq, Default)]
pub struct SystemdService {
    pub unit: String,
    pub description: String,
}

pub struct ServiceView {
    pub unit: Seq<char>,
    pub description: Seq<char>,
}

impl View for SystemdService {
    type V = ServiceView;

    open spec fn view(&self) -> ServiceView {
        ServiceView { unit: self.unit@, description: self.description@ }
    }
}

pub open spec fn service_views(s: Seq<SystemdService>) -> Seq<ServiceView> {
    s.map_values(|x: SystemdService| x@)
}

/// A listed line: at least the four status columns, and a unit name ending
/// in the service suffix.
pub open spec fn service_line_kept(line: Seq<char>) -> bool {
    ws_tokens(line).len() >= 4 && has_suffix(ws_tokens(line)[0], ".service"@)
}

/// The service of a kept line: the unit name, and the words after the
/// three status columns joined back with single spaces.
pub open spec fn service_entry(line: Seq<char>) -> ServiceView {
    let ts = ws_tokens(line);
    ServiceView { unit: ts[0], description: join_spaced(ts.skip(4)) }
}

pub open spec fn services_acc(ls: Seq<Seq<char>>, acc: Seq<ServiceView>) -> Seq<ServiceView>
    decreases ls.len(),
{
    if ls.len() == 0 {
        acc
    } else if service_line_kept(ls[0]) {
        services_acc(ls.drop_first(), acc.push(service_entry(ls[0])))
    } else {
        services_acc(ls.drop_first(), acc)
    }
}

pub open spec fn services_spec(input: Seq<char>) -> Seq<ServiceView> {
    services_acc(text_lines(input), Seq::empty())
}

/// Parse the running-services table. Lines that do not look like a service
/// row are skipped; the read itself never fails.
pub fn get_services_from_str(input: &str) -> (r: Result<Vec<SystemdService>, ProbeError>)
    ensures
        r is Ok,
        service_views(r.unwrap()@) == services_spec(input@),
{
    let lines = split_lines(input);
    let mut out: Vec<SystemdService> = Vec::new();
    let mut i: usize = 0;
    proof {
        assert(views(lines@).skip(0) =~= views(lines@));
        assert(service_views(out@) =~= Seq::<ServiceView>::empty());
    }
    while i < lines.len()
        invariant
            0 <= i <= lines@.len(),
            views(lines@) == text_lines(input@),
            services_spec(input@) == services_acc(
                views(lines@).skip(i as int),
                service_views(out@),
            ),
        decreases lines@.len() - i,
    {
        let ghost lv = views(lines@).skip(i as int);
        proof {
            assert(lv[0] == lines@[i as int]@);
            assert(lv.drop_first() =~= views(lines@).skip(i as int + 1));
        }
        let toks = split_ws(lines[i].as_str());
        if toks.len() >= 4 && str_has_suffix(toks[0].as_str(), ".service") {
            proof {
                assert(views(toks@)[0] == toks@[0]@);
                assert(ws_tokens(lv[0]).len() == toks@.len());
                assert(service_line_kept(lv[0]));
            }
            let description = join_from(&toks, 4);
            let rec = SystemdService { unit: toks[0].clone(), description };
            let ghost out0 = out@;
            let ghost recv = rec@;
            proof {
                assert(views(toks@).skip(4) =~= ws_tokens(lv[0]).skip(4));
                assert(recv == service_entry(lv[0]));
            }
            out.push(rec);
            proof {
                assert(out@ == out0.push(out@[out0.len() as int]));
                assert(service_views(out@) =~= service_views(out0).push(recv));
            }
        } else {
            proof {
                assert(ws_tokens(lv[0]).len() == toks@.len());
                if toks@.len() >= 4 {
                    assert(views(toks@)[0] == toks@[0]@);
                }
                assert(!service_line_kept(lv[0]));
            }
        }
        i += 1;
    }
    proof {
        assert(views(lines@).skip(lines@.len() as int) =~= Seq::<Seq<char>>::empty());
    }
    Ok(out)
}

// ---------------------------------------------------------------------------
// Control groups
// ---------------------------------------------------------------------------
/// One control group's resource row; every column is reported verbatim.
#[derive(Debug, Clone, PartialEq, Eq, Default)]
pub struct CgroupInfo {
    pub path: String,
    pub tasks: String,
    pub cpu: String,
    pub memory: String,
}

pub struct CgroupView {
    pub path: Seq<char>,
    pub tasks: Seq<char>,
    pub cpu: Seq<char>,
    pub memory: Seq<char>,
}

impl View for CgroupInfo {
    type V = CgroupView;

    open spec fn view(&self) -> CgroupView {
        CgroupView {
            path: self.path@,
            tasks: self.tasks@,
            cpu: self.cpu@,
            memory: self.memory@,
        }
    }
}

pub open spec fn cgroup_views(s: Seq<CgroupInfo>) -> Seq<CgroupView> {
    s.map_values(|x: CgroupInfo| x@)
}

/// The ordering key of a control-group row.
pub open spec fn cg_key() -> spec_fn(CgroupView) -> Seq<char> {
    |c: CgroupView| c.path
}

/// A kept row: the four columns are present and the row reports at least
/// one of processor share or memory.
pub open spec fn cgroup_line_kept(line: Seq<char>) -> bool {
    let ts = ws_tokens(line);
    ts.len() >= 4 && (ts[2] != "-"@ || ts[3] != "-"@)
}

pub open spec fn cgroup_entry(line: Seq<char>) -> CgroupView {
    let ts = ws_tokens(line);
    CgroupView { path: ts[0], tasks: ts[1], cpu: ts[2], memory: ts[3] }
}

/// Rows accumulated in path order by stable insertion, which is what an
/// in-order stable sort of the kept rows produces.
pub open spec fn cgroups_acc(ls: Seq<Seq<char>>, acc: Seq<CgroupView>) -> Seq<CgroupView>
    decreases ls.len(),
{
    if ls.len() == 0 {
        acc
    } else if cgroup_line_kept(ls[0]) {
        cgroups_acc(ls.drop_first(), keyed_insert(acc, cgroup_entry(ls[0]), cg_key()))
    } else {
        cgroups_acc(ls.drop_first(), acc)
    }
}

/// What parsing the control-group table yields: the header line is ignored
/// and the kept rows come out sorted by path.
pub open spec fn cgroups_spec(input: Seq<char>) -> Seq<CgroupView> {
    cgroups_acc(drop_prefix(text_lines(input), 1), Seq::empty())
}

/// Insert one row into a path-sorted vector, after every row whose path is
/// not strictly above.
fn insert_cgroup_sorted(out: &mut Vec<CgroupInfo>, rec: CgroupInfo)
    ensures
        cgroup_views(final(out)@) == keyed_insert(cgroup_views(old(out)@), rec@, cg_key()),
{
    let ghost ov = cgroup_views(old(out)@);
    let ghost recv = rec@;
    let mut j: usize = 0;
    proof {
        assert(ov.take(0) =~= Seq::<CgroupView>::empty());
        assert(ov.skip(0) =~= ov);
        assert(Seq::<CgroupView>::empty() + keyed_insert(ov, recv, cg_key()) =~= keyed_insert(
            ov,
            recv,
            cg_key(),
        ));
    }
    loop
        invariant
            0 <= j <= out@.len(),
            out@ == old(out)@,
            ov == cgroup_views(old(out)@),
            recv == rec@,
            keyed_insert(ov, recv, cg_key()) == ov.take(j as int) + keyed_insert(
                ov.skip(j as int),
                recv,
                cg_key(),
            ),
        decreases out@.len() - j,
    {
        let ghost rem = ov.skip(j as int);
        if j >= out.len() {
            out.push(rec);
            proof {
                assert(rem.len() == 0);
                assert(keyed_insert(ov, recv, cg_key()) =~~= cgroup_views(out@));
            }
            return;
        }
        proof {
            assert(rem[0] == ov[j as int]);
            assert(ov[j as int] == out@[j as int]@);
        }
        if !str_lex_le(out[j].path.as_str(), rec.path.as_str()) {
            proof {
                lemma_lex_lt_iff(recv.path, ov[j as int].path);
            }
            out.insert(j, rec);
            proof {
                assert(keyed_insert(ov, recv, cg_key()) =~~= cgroup_views(out@));
            }
            return;
        }
        proof {
            lemma_lex_lt_iff(recv.path, ov[j as int].path);
            assert(!lex_lt(recv.path, ov[j as int].path));
            assert(rem.drop_first() =~= ov.skip(j as int + 1));
            assert(ov.take(j as int + 1) =~= ov.take(j as int) + seq![ov[j as int]]);
            assert(keyed_insert(ov, recv, cg_key()) =~~= ov.take(j as int + 1) + keyed_insert(
                ov.skip(j as int + 1),
                recv,
                cg_key(),
            ));
        }
        j += 1;
    }
}

/// Parse the control-group resource table: skip the header, keep every row
/// with four columns and some processor or memory reading, and return the
/// kept rows sorted by path. The read itself never fails.
pub fn get_cgroup_data_from_str(input: &str) -> (r: Result<Vec<CgroupInfo>, ProbeError>)
    ensures
        r is Ok,
        cgroup_views(r.unwrap()@) == cgroups_spec(input@),
        sorted_by_key(cgroup_views(r.unwrap()@), cg_key()),
{
    let lines = split_lines(input);
    let mut out: Vec<CgroupInfo> = Vec::new();
    let mut i: usize = 1;
    proof {
        assert(cgroup_views(out@) =~= Seq::<CgroupView>::empty());
    }
    while i < lines.len()
        invariant
            1 <= i,
            views(lines@) == text_lines(input@),
            cgroups_spec(input@) == cgroups_acc(
                drop_prefix(views(lines@), i as int),
                cgroup_views(out@),
            ),
            sorted_by_key(cgroup_views(out@), cg_key()),
        decreases lines@.len() - i,
    {
        let ghost lv = drop_prefix(views(lines@), i as int);
        proof {
            assert(lv == views(lines@).skip(i as int));
            assert(lv[0] == lines@[i as int]@);
            assert(lv.drop_first() =~= views(lines@).skip(i as int + 1));
            assert(lv.drop_first() == drop_prefix(views(lines@), i as int + 1));
        }
        let toks = split_ws(lines[i].as_str());
        if toks.len() >= 4 && (!str_eq(toks[2].as_str(), "-") || !str_eq(toks[3].as_str(), "-")) {
            proof {
                assert(ws_tokens(lv[0]).len() == toks@.len());
                assert(views(toks@)[0] == toks@[0]@);
                assert(views(toks@)[1] == toks@[1]@);
                assert(views(toks@)[2] == toks@[2]@);
                assert(views(toks@)[3] == toks@[3]@);
                assert(cgroup_line_kept(lv[0]));
            }
            let rec = CgroupInfo {
                path: toks[0].clone(),
                tasks: toks[1].clone(),
                cpu: toks[2].clone(),
                memory: toks[3].clone(),
            };
            proof {
                assert(rec@ == cgroup_entry(lv[0]));
                lemma_keyed_insert_sorted(cgroup_views(out@), rec@, cg_key());
            }
            insert_cgroup_sorted(&mut out, rec);
        } else {
            proof {
                assert(ws_tokens(lv[0]).len() == toks@.len());
                if toks@.len() >= 4 {
                    assert(views(toks@)[2] == toks@[2]@);
                    assert(views(toks@)[3] == toks@[3]@);
                }
                assert(!cgroup_line_kept(lv[0]));
            }
        }
        i += 1;
    }
    proof {
        assert(drop_prefix(views(lines@), i as int) =~= Seq::<Seq<char>>::empty());
    }
    Ok(out)
}

} // verus!
