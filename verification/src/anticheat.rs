//! Protection of players: games under an anti-cheat are never touched.
//!
//! Loading code into a protected process risks a permanent ban of the account, so such
//! processes are refused outright, and observed without it instead.

use vstd::prelude::*;
use vstd::string::*;

use crate::text;
use crate::text::{decimal, same_in_lower_case};

verus! {

/// Image names of anti-cheat services, in lower case.
pub open spec fn is_service(n: Seq<char>) -> bool {
    ||| n == "easyanticheat.exe"@
    ||| n == "easyanticheat_sys.exe"@
    ||| n == "easyanticheatsetup.exe"@
    ||| n == "beservice.exe"@
    ||| n == "beserver.exe"@
    ||| n == "beshellsvc.exe"@
    ||| n == "bedaisy.exe"@
    ||| n == "vgc.exe"@
    ||| n == "vgtray.exe"@
    ||| n == "vgk.exe"@
    ||| n == "faceitclient.exe"@
    ||| n == "faceit.exe"@
    ||| n == "eseaclient.exe"@
    ||| n == "fairplaykd.exe"@
    ||| n == "mhyprot2.exe"@
    ||| n == "atprotect.exe"@
    ||| n == "xigncode3.exe"@
    ||| n == "gameguard.exe"@
    ||| n == "weagle.exe"@
    ||| n == "netsh.exe"@
}

/// Names of modules that tell of an anti-cheat, in lower case.
pub open spec fn is_module(n: Seq<char>) -> bool {
    ||| n == "easyanticheat.dll"@
    ||| n == "easyanticheat_x64.dll"@
    ||| n == "easyanticheat_x86.dll"@
    ||| n == "easyanticheat.sys"@
    ||| n == "battleye.dll"@
    ||| n == "battleye_x64.dll"@
    ||| n == "battleye.sys"@
    ||| n == "vgk.dll"@
    ||| n == "vgk.sys"@
    ||| n == "faceitclient.dll"@
    ||| n == "esea.sys"@
    ||| n == "mhyprot2.sys"@
    ||| n == "mhyprot3.sys"@
    ||| n == "xigncode.dll"@
    ||| n == "xigncode3.dll"@
    ||| n == "atprotect.dll"@
    ||| n == "gameguard.dll"@
}

/// Image names of protected games, in lower case.
pub open spec fn is_game(n: Seq<char>) -> bool {
    ||| n == "valorant.exe"@
    ||| n == "fortniteclient-win64-shipping.exe"@
    ||| n == "rustclient.exe"@
    ||| n == "escapefromtarkov.exe"@
    ||| n == "r5apex.exe"@
    ||| n == "apex_legends.exe"@
    ||| n == "cod.exe"@
    ||| n == "modernwarfare.exe"@
    ||| n == "blackops4.exe"@
    ||| n == "gta5_enhanced.exe"@
    ||| n == "gta5.exe"@
    ||| n == "pubg.exe"@
    ||| n == "tslgame.exe"@
    ||| n == "rainbowsix.exe"@
    ||| n == "vfs.exe"@
    ||| n == "destiny2.exe"@
    ||| n == "genshinimpact.exe"@
    ||| n == "yuanshen.exe"@
    ||| n == "zenlesszonezero.exe"@
    ||| n == "huntshowdown.exe"@
    ||| n == "dayz_x64.exe"@
    ||| n == "arma3_x64.exe"@
    ||| n == "smite.exe"@
    ||| n == "splitgate.exe"@
    ||| n == "newworld.exe"@
}

fn is_service_name(name: &str) -> (b: bool)
    ensures
        b == is_service(text::ascii_lower(name@)),
{
    same_in_lower_case(name, "easyanticheat.exe") || same_in_lower_case(name, "easyanticheat_sys.exe")
        || same_in_lower_case(name, "easyanticheatsetup.exe")
        || same_in_lower_case(name, "beservice.exe")
        || same_in_lower_case(name, "beserver.exe")
        || same_in_lower_case(name, "beshellsvc.exe")
        || same_in_lower_case(name, "bedaisy.exe")
        || same_in_lower_case(name, "vgc.exe")
        || same_in_lower_case(name, "vgtray.exe")
        || same_in_lower_case(name, "vgk.exe")
        || same_in_lower_case(name, "faceitclient.exe")
        || same_in_lower_case(name, "faceit.exe")
        || same_in_lower_case(name, "eseaclient.exe")
        || same_in_lower_case(name, "fairplaykd.exe")
        || same_in_lower_case(name, "mhyprot2.exe")
        || same_in_lower_case(name, "atprotect.exe")
        || same_in_lower_case(name, "xigncode3.exe")
        || same_in_lower_case(name, "gameguard.exe")
        || same_in_lower_case(name, "weagle.exe")
        || same_in_lower_case(name, "netsh.exe")
}

fn is_game_name(name: &str) -> (b: bool)
    ensures
        b == is_game(text::ascii_lower(name@)),
{
    same_in_lower_case(name, "valorant.exe") || same_in_lower_case(name, "fortniteclient-win64-shipping.exe")
        || same_in_lower_case(name, "rustclient.exe")
        || same_in_lower_case(name, "escapefromtarkov.exe")
        || same_in_lower_case(name, "r5apex.exe")
        || same_in_lower_case(name, "apex_legends.exe")
        || same_in_lower_case(name, "cod.exe")
        || same_in_lower_case(name, "modernwarfare.exe")
        || same_in_lower_case(name, "blackops4.exe")
        || same_in_lower_case(name, "gta5_enhanced.exe")
        || same_in_lower_case(name, "gta5.exe")
        || same_in_lower_case(name, "pubg.exe")
        || same_in_lower_case(name, "tslgame.exe")
        || same_in_lower_case(name, "rainbowsix.exe")
        || same_in_lower_case(name, "vfs.exe")
        || same_in_lower_case(name, "destiny2.exe")
        || same_in_lower_case(name, "genshinimpact.exe")
        || same_in_lower_case(name, "yuanshen.exe")
        || same_in_lower_case(name, "zenlesszonezero.exe")
        || same_in_lower_case(name, "huntshowdown.exe")
        || same_in_lower_case(name, "dayz_x64.exe")
        || same_in_lower_case(name, "arma3_x64.exe")
        || same_in_lower_case(name, "smite.exe")
        || same_in_lower_case(name, "splitgate.exe")
        || same_in_lower_case(name, "newworld.exe")
}

/// A module of this name tells of an anti-cheat, whatever its case.
pub fn is_protected_module(name: &str) -> (b: bool)
    ensures
        b == is_module(text::ascii_lower(name@)),
{
    same_in_lower_case(name, "easyanticheat.dll") || same_in_lower_case(name, "easyanticheat_x64.dll")
        || same_in_lower_case(name, "easyanticheat_x86.dll")
        || same_in_lower_case(name, "easyanticheat.sys")
        || same_in_lower_case(name, "battleye.dll")
        || same_in_lower_case(name, "battleye_x64.dll")
        || same_in_lower_case(name, "battleye.sys")
        || same_in_lower_case(name, "vgk.dll")
        || same_in_lower_case(name, "vgk.sys")
        || same_in_lower_case(name, "faceitclient.dll")
        || same_in_lower_case(name, "esea.sys")
        || same_in_lower_case(name, "mhyprot2.sys")
        || same_in_lower_case(name, "mhyprot3.sys")
        || same_in_lower_case(name, "xigncode.dll")
        || same_in_lower_case(name, "xigncode3.dll")
        || same_in_lower_case(name, "atprotect.dll")
        || same_in_lower_case(name, "gameguard.dll")
}

/// The image name belongs to an anti-cheat service or a protected game, whatever its
/// case.
pub open spec fn is_protected(name: Seq<char>) -> bool {
    is_service(text::ascii_lower(name)) || is_game(text::ascii_lower(name))
}

/// Whether the image name is protected.
pub fn is_protected_name(name: &str) -> (b: bool)
    ensures
        b == is_protected(name@),
{
    is_service_name(name) || is_game_name(name)
}

/// The length of a name that ends in a zero; one without an end is no name.
pub fn name_length(units: &Vec<u16>) -> (n: usize)
    ensures
        forall|i: int| 0 <= i < n ==> units@[i] != 0,
        n > 0 ==> n < units@.len() && units@[n as int] == 0,
        n == 0 ==> (units@.len() > 0 && units@[0] == 0) || !units@.contains(0u16),
{
    let mut i: usize = 0;
    while i < units.len()
        invariant
            i <= units@.len(),
            forall|j: int| 0 <= j < i ==> units@[j] != 0,
        decreases units@.len() - i,
    {
        if units[i] == 0 {
            return i;
        }
        i = i + 1;
    }
    0
}

/// A process as listed by the system.
#[derive(Debug)]
pub struct ProcessEntry {
    pub pid: u32,
    pub name: String,
}

/// The first entry of `list` for `pid`.
pub open spec fn first_of(list: Seq<ProcessEntry>, pid: u32) -> Option<int>
    decreases list.len(),
{
    if list.len() == 0 {
        None
    } else {
        match first_of(list.drop_last(), pid) {
            Some(i) => Some(i),
            None => if list.last().pid == pid {
                Some(list.len() - 1)
            } else {
                None
            },
        }
    }
}

/// The image name of a process, from a list of the running ones.
pub fn process_name(pid: u32, list: &Vec<ProcessEntry>) -> (r: Result<String, String>)
    ensures
        match first_of(list@, pid) {
            Some(i) => r is Ok && (r->Ok_0)@ == list@[i].name@,
            None => r is Err && (r->Err_0)@ == "pid "@ + text::decimal_of(pid as int)
                + " not found"@,
        },
{
    let mut i: usize = 0;
    assert(list@.take(0) =~= Seq::empty());
    while i < list.len()
        invariant
            i <= list@.len(),
            first_of(list@.take(i as int), pid) is None,
        decreases list@.len() - i,
    {
        assert(list@.take(i + 1).drop_last() =~= list@.take(i as int));
        if list[i].pid == pid {
            proof {
                lemma_first_stays(list@, i + 1, pid);
            }
            return Ok(list[i].name.clone());
        }
        i = i + 1;
    }
    assert(list@.take(i as int) =~= list@);
    let mut message = String::from_str("pid ");
    message.append(decimal(pid as u64).as_str());
    message.append(" not found");
    Err(message)
}

proof fn lemma_first_stays(list: Seq<ProcessEntry>, k: int, pid: u32)
    requires
        0 <= k <= list.len(),
        first_of(list.take(k), pid) is Some,
    ensures
        first_of(list, pid) == first_of(list.take(k), pid),
    decreases list.len() - k,
{
    if k == list.len() {
        assert(list.take(k) =~= list);
    } else {
        assert(list.take(k + 1).drop_last() =~= list.take(k));
        lemma_first_stays(list, k + 1, pid);
    }
}

/// The first protected module of a list.
pub open spec fn first_module(modules: Seq<String>, k: nat) -> Option<int>
    decreases k,
{
    if k == 0 {
        None
    } else {
        match first_module(modules, (k - 1) as nat) {
            Some(i) => Some(i),
            None => if is_module(text::ascii_lower(modules[k - 1]@)) {
                Some(k - 1)
            } else {
                None
            },
        }
    }
}

proof fn lemma_first_module_stays(modules: Seq<String>, k: nat, n: nat)
    requires
        k <= n,
        first_module(modules, k) is Some,
    ensures
        first_module(modules, n) == first_module(modules, k),
    decreases n,
{
    if k < n {
        lemma_first_module_stays(modules, k, (n - 1) as nat);
    }
}

/// The refusal of a protected process.
pub open spec fn process_refusal(name: Seq<char>) -> Seq<char> {
    "REFUSED: '"@ + name
        + "' is an anti-cheat protected process — injection risks a permanent ban. Use telemetry-only mode instead."@
}

/// The refusal of a process with a protected module.
pub open spec fn module_refusal(module: Seq<char>, pid: u32) -> Seq<char> {
    "REFUSED: anti-cheat module '"@ + module + "' detected in pid "@ + text::decimal_of(pid as int)
        + " — injection risks a permanent ban. Use telemetry-only mode instead."@
}

/// Judges a process by its image name and its modules: protected ones are refused, with
/// the reason.
pub fn check_process(pid: u32, name: &str, modules: &Vec<String>) -> (r: Result<(), String>)
    ensures
        r is Ok <==> !is_protected(name@) && first_module(modules@, modules@.len()) is None,
        is_protected(name@) ==> r is Err && (r->Err_0)@ == process_refusal(name@),
        !is_protected(name@) && first_module(modules@, modules@.len()) is Some ==> r is Err && (
        r->Err_0)@ == module_refusal(
            modules@[first_module(modules@, modules@.len())->0]@,
            pid,
        ),
{
    if is_protected_name(name) {
        let mut message = String::from_str("REFUSED: '");
        message.append(name);
        message.append(
            "' is an anti-cheat protected process — injection risks a permanent ban. Use telemetry-only mode instead.",
        );
        return Err(message);
    }
    let mut i: usize = 0;
    while i < modules.len()
        invariant
            i <= modules@.len(),
            first_module(modules@, i as nat) is None,
            !is_protected(name@),
        decreases modules@.len() - i,
    {
        if is_protected_module(modules[i].as_str()) {
            proof {
                lemma_first_module_stays(modules@, (i + 1) as nat, modules@.len());
            }
            let mut message = String::from_str("REFUSED: anti-cheat module '");
            message.append(modules[i].as_str());
            message.append("' detected in pid ");
            message.append(decimal(pid as u64).as_str());
            message.append(
                " — injection risks a permanent ban. Use telemetry-only mode instead.",
            );
            return Err(message);
        }
        i = i + 1;
    }
    Ok(())
}

/// A process is let through only where neither its name nor any of its modules is
/// protected, in whatever case they are written.
pub proof fn law_no_protected_process_passes(name: Seq<char>, modules: Seq<String>, i: int)
    requires
        !is_protected(name),
        first_module(modules, modules.len()) is None,
        0 <= i < modules.len(),
    ensures
        !is_module(text::ascii_lower(modules[i]@)),
{
    lemma_none_before(modules, modules.len(), i);
}

proof fn lemma_none_before(modules: Seq<String>, k: nat, i: int)
    requires
        first_module(modules, k) is None,
        0 <= i < k,
    ensures
        !is_module(text::ascii_lower(modules[i]@)),
    decreases k,
{
    if i < k - 1 {
        lemma_none_before(modules, (k - 1) as nat, i);
    }
}

/// The case of a name does not matter.
pub proof fn law_case_does_not_matter(a: Seq<char>, b: Seq<char>)
    requires
        text::ascii_lower(a) == text::ascii_lower(b),
    ensures
        is_protected(a) == is_protected(b),
{
}

/// The services, modules and games that are known by name are all of them told, each by
/// its kind.
pub proof fn law_known_names_are_told()
    ensures
        is_service("easyanticheat.exe"@) && is_service("easyanticheat_sys.exe"@) && is_service(
            "easyanticheatsetup.exe"@,
        ) && is_service("beservice.exe"@) && is_service("beserver.exe"@) && is_service(
            "beshellsvc.exe"@,
        ) && is_service("bedaisy.exe"@) && is_service("vgc.exe"@) && is_service("vgtray.exe"@)
            && is_service("vgk.exe"@) && is_service("faceitclient.exe"@) && is_service(
            "faceit.exe"@,
        ) && is_service("eseaclient.exe"@) && is_service("fairplaykd.exe"@) && is_service(
            "mhyprot2.exe"@,
        ) && is_service("atprotect.exe"@) && is_service("xigncode3.exe"@) && is_service(
            "gameguard.exe"@,
        ) && is_service("weagle.exe"@) && is_service("netsh.exe"@),
        is_module("easyanticheat.dll"@) && is_module("easyanticheat_x64.dll"@) && is_module(
            "easyanticheat_x86.dll"@,
        ) && is_module("easyanticheat.sys"@) && is_module("battleye.dll"@) && is_module(
            "battleye_x64.dll"@,
        ) && is_module("battleye.sys"@) && is_module("vgk.dll"@) && is_module("vgk.sys"@)
            && is_module("faceitclient.dll"@) && is_module("esea.sys"@) && is_module(
            "mhyprot2.sys"@,
        ) && is_module("mhyprot3.sys"@) && is_module("xigncode.dll"@) && is_module(
            "xigncode3.dll"@,
        ) && is_module("atprotect.dll"@) && is_module("gameguard.dll"@),
        is_game("valorant.exe"@) && is_game("fortniteclient-win64-shipping.exe"@) && is_game(
            "rustclient.exe"@,
        ) && is_game("escapefromtarkov.exe"@) && is_game("r5apex.exe"@) && is_game(
            "apex_legends.exe"@,
        ) && is_game("cod.exe"@) && is_game("modernwarfare.exe"@) && is_game("blackops4.exe"@)
            && is_game("gta5_enhanced.exe"@) && is_game("gta5.exe"@) && is_game("pubg.exe"@)
            && is_game("tslgame.exe"@) && is_game("rainbowsix.exe"@) && is_game("vfs.exe"@)
            && is_game("destiny2.exe"@) && is_game("genshinimpact.exe"@) && is_game(
            "yuanshen.exe"@,
        ) && is_game("zenlesszonezero.exe"@) && is_game("huntshowdown.exe"@) && is_game(
            "dayz_x64.exe"@,
        ) && is_game("arma3_x64.exe"@) && is_game("smite.exe"@) && is_game("splitgate.exe"@)
            && is_game("newworld.exe"@),
{
}

/// A protected name is that of a service or of a game, in lower case, and the module that a
/// refusal names is the first that tells of an anti-cheat.
pub proof fn law_first_module_is_named(name: Seq<char>, modules: Seq<String>, k: nat)
    requires
        k <= modules.len(),
    ensures
        is_protected(name) <==> is_service(text::ascii_lower(name)) || is_game(
            text::ascii_lower(name),
        ),
        first_module(modules, k) is None <==> (forall|i: int|
            0 <= i < k ==> !is_module(text::ascii_lower((#[trigger] modules[i])@))),
        first_module(modules, k) matches Some(i) ==> {
            &&& 0 <= i < k
            &&& is_module(text::ascii_lower(modules[i]@))
            &&& forall|j: int| 0 <= j < i ==> !is_module(text::ascii_lower((#[trigger] modules[j])@))
        },
    decreases k,
{
    if k > 0 {
        law_first_module_is_named(name, modules, (k - 1) as nat);
    }
}

/// The entry of a process is the first that has its number.
pub proof fn law_first_entry_of_the_process(list: Seq<ProcessEntry>, pid: u32)
    ensures
        first_of(list, pid) is None <==> (forall|i: int|
            0 <= i < list.len() ==> (#[trigger] list[i]).pid != pid),
        first_of(list, pid) matches Some(i) ==> {
            &&& 0 <= i < list.len()
            &&& list[i].pid == pid
            &&& forall|j: int| 0 <= j < i ==> (#[trigger] list[j]).pid != pid
        },
    decreases list.len(),
{
    if list.len() > 0 {
        let rest = list.drop_last();
        law_first_entry_of_the_process(rest, pid);
        assert forall|i: int| 0 <= i < rest.len() implies #[trigger] list[i] == rest[i] by {}
        if first_of(rest, pid) is None {
            assert forall|j: int| 0 <= j < rest.len() implies (#[trigger] list[j]).pid != pid by {
                assert(list[j] == rest[j]);
            }
        } else {
            let i = first_of(rest, pid)->0;
            assert(list[i] == rest[i]);
            assert forall|j: int| 0 <= j < i implies (#[trigger] list[j]).pid != pid by {
                assert(list[j] == rest[j]);
            }
        }
    }
}

} // verus!
