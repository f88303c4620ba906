//! The local addresses that the listeners can be bound to, as offered for
//! choice, and what is reported of the listeners.
use crate::text::{ipv4_text, ipv4_to_string};
use vstd::prelude::*;
use vstd::string::*;

verus! {

/// A local address to listen on.
#[derive(Debug, Clone)]
pub struct NetworkInterface {
    pub name: String,
    pub ip: String,
    pub is_loopback: bool,
}

/// What a `NetworkInterface` holds, as plain mathematical values.
pub struct InterfaceModel {
    pub name: Seq<char>,
    pub ip: Seq<char>,
    pub is_loopback: bool,
}

impl View for NetworkInterface {
    type V = InterfaceModel;

    open spec fn view(&self) -> InterfaceModel {
        InterfaceModel { name: self.name@, ip: self.ip@, is_loopback: self.is_loopback }
    }
}

/// Whether the listeners run.
#[derive(Debug, Clone, Copy, PartialEq, Eq, Structural)]
pub struct ListenerStatus {
    pub is_listening: bool,
    pub artnet_active: bool,
    pub sacn_active: bool,
}

/// The status to report: both listeners run exactly when listening is on.
pub fn listener_status(is_listening: bool) -> (status: ListenerStatus)
    ensures
        status == (ListenerStatus {
            is_listening,
            artnet_active: is_listening,
            sacn_active: is_listening,
        }),
{
    ListenerStatus { is_listening, artnet_active: is_listening, sacn_active: is_listening }
}

/// The models of a list of interfaces.
pub open spec fn models(list: Seq<NetworkInterface>) -> Seq<InterfaceModel> {
    Seq::new(list.len(), |i: int| list[i]@)
}

/// Some entry of the list has the address `ip`.
pub open spec fn knows_ip(list: Seq<InterfaceModel>, ip: Seq<char>) -> bool {
    exists|i: int| 0 <= i < list.len() && (#[trigger] list[i]).ip == ip
}

/// The list with the interface `name` at `ip` added, unless the address is
/// 127.0.0.1 or stands in the list already.
pub open spec fn with_interface(
    list: Seq<InterfaceModel>,
    name: Seq<char>,
    ip: Seq<u8>,
) -> Seq<InterfaceModel> {
    if ip == seq![127u8, 0u8, 0u8, 1u8] || knows_ip(list, ipv4_text(ip)) {
        list
    } else {
        list.push(InterfaceModel { name, ip: ipv4_text(ip), is_loopback: ip[0] == 127 })
    }
}

/// The list with each of `found` added in turn.
pub open spec fn with_interfaces(
    list: Seq<InterfaceModel>,
    found: Seq<(String, [u8; 4])>,
) -> Seq<InterfaceModel>
    decreases found.len(),
{
    if found.len() == 0 {
        list
    } else {
        with_interface(
            with_interfaces(list, found.drop_last()),
            found.last().0@,
            found.last().1@,
        )
    }
}

/// The choices before any interface is added: every address, and the
/// primary address if there is one.
pub open spec fn base_choices(primary: Option<String>) -> Seq<InterfaceModel> {
    let all = InterfaceModel { name: "All Interfaces"@, ip: "0.0.0.0"@, is_loopback: false };
    match primary {
        Some(ip) => seq![
            all,
            InterfaceModel { name: ("Primary ("@ + ip@).push(')'), ip: ip@, is_loopback: false },
        ],
        None => seq![all],
    }
}

fn has_ip(list: &Vec<NetworkInterface>, ip: &String) -> (found: bool)
    ensures
        found == knows_ip(models(list@), ip@),
{
    let mut i: usize = 0;
    while i < list.len()
        invariant
            i <= list.len(),
            forall|k: int| 0 <= k < i ==> (#[trigger] models(list@)[k]).ip != ip@,
        decreases list.len() - i,
    {
        assert(models(list@)[i as int] == list@[i as int]@);
        if list[i].ip == *ip {
            return true;
        }
        i += 1;
    }
    false
}

/// The addresses offered for listening: every address, the primary one,
/// then each interface with an IPv4 address other than 127.0.0.1 that is
/// not yet in the list.
pub fn network_interfaces(primary: Option<String>, found: Vec<(String, [u8; 4])>) -> (list: Vec<
    NetworkInterface,
>)
    ensures
        models(list@) == with_interfaces(base_choices(primary), found@),
{
    let mut list: Vec<NetworkInterface> = Vec::new();
    list.push(
        NetworkInterface {
            name: String::from_str("All Interfaces"),
            ip: String::from_str("0.0.0.0"),
            is_loopback: false,
        },
    );
    match &primary {
        Some(ip) => {
            let mut name = String::from_str("Primary (");
            name.append(ip.as_str());
            name.append(")");
            proof {
                reveal_strlit(")");
                assert(")"@ =~= seq![')']);
                assert(name@ =~= ("Primary ("@ + ip@).push(')'));
            }
            list.push(NetworkInterface { name, ip: ip.clone(), is_loopback: false });
        },
        None => {},
    }
    assert(models(list@) =~= base_choices(primary));
    let mut i: usize = 0;
    while i < found.len()
        invariant
            i <= found.len(),
            models(list@) == with_interfaces(base_choices(primary), found@.take(i as int)),
        decreases found.len() - i,
    {
        let ghost before = models(list@);
        let ip = found[i].1;
        let text = ipv4_to_string(&ip);
        let localhost = ip[0] == 127 && ip[1] == 0 && ip[2] == 0 && ip[3] == 1;
        proof {
            assert(found@.take(i + 1).drop_last() =~= found@.take(i as int));
            assert(found@.take(i + 1).last() == found@[i as int]);
            if localhost {
                assert(ip@ =~= seq![127u8, 0u8, 0u8, 1u8]);
            }
        }
        if !localhost && !has_ip(&list, &text) {
            list.push(
                NetworkInterface { name: found[i].0.clone(), ip: text, is_loopback: ip[0] == 127 },
            );
            assert(models(list@) =~= before.push(
                InterfaceModel {
                    name: found@[i as int].0@,
                    ip: ipv4_text(ip@),
                    is_loopback: ip[0] == 127,
                },
            ));
        }
        i += 1;
    }
    assert(found@.take(i as int) =~= found@);
    list
}

} // verus!
