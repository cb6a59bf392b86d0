//! The control router: turns one sample into volume commands.  Each physical
//! channel's raw reading is normalized to a quantized percentage; a channel
//! without a mapping does nothing, a master mapping drives the master volume,
//! and a mapping with a process id drives that application's volume.  Backend
//! failures never stop the remaining channels or later samples.

use crate::audio::AudioManager;
use crate::mappings::{spec_lookup, MappingStore};
use crate::types::{ChannelMappingView, PotentiometerData};
use crate::volume;
use vstd::prelude::*;

verus! {

/// One volume command for the audio backend, with percentages already
/// quantized.
#[derive(Debug, Clone, Copy, PartialEq, Eq, Structural)]
pub enum VolumeCommand {
    /// Set the system master volume.
    SetMaster(u32),
    /// Set one application's volume: process id, then percentage.
    SetApp(u32, u32),
}

/// The command one channel's mapping asks for at percentage `pct`: nothing
/// without a mapping or a target, the master volume for a master mapping,
/// the mapped application otherwise.
pub open spec fn spec_channel_command(
    m: Option<ChannelMappingView>,
    pct: u32,
) -> Option<VolumeCommand> {
    match m {
        None => None,
        Some(mv) => if mv.is_master {
            Some(VolumeCommand::SetMaster(pct))
        } else {
            match mv.process_id {
                Some(pid) => Some(VolumeCommand::SetApp(pid, pct)),
                None => None,
            }
        },
    }
}

/// A channel's command as a (possibly empty) run of output.
pub open spec fn cmd_seq(o: Option<VolumeCommand>) -> Seq<VolumeCommand> {
    match o {
        Some(c) => seq![c],
        None => Seq::empty(),
    }
}

/// The commands one sample asks for: the three physical channels in order,
/// each normalized and routed through the mapping table.
pub open spec fn spec_route(
    t: Seq<ChannelMappingView>,
    d: PotentiometerData,
) -> Seq<VolumeCommand> {
    cmd_seq(spec_channel_command(spec_lookup(t, 1), volume::spec_percentage(d.pot1 as int) as u32))
        + cmd_seq(
        spec_channel_command(spec_lookup(t, 2), volume::spec_percentage(d.pot2 as int) as u32),
    ) + cmd_seq(
        spec_channel_command(spec_lookup(t, 3), volume::spec_percentage(d.pot3 as int) as u32),
    )
}

/// The commands for one sample, in channel order.
pub fn route_sample(data: &PotentiometerData, store: &MappingStore) -> (r: Vec<VolumeCommand>)
    ensures
        r@ == spec_route(store@, *data),
{
    let (p1, p2, p3) = data.to_percentages();
    let mut r: Vec<VolumeCommand> = Vec::new();
    push_channel_command(&mut r, store, 1, p1);
    push_channel_command(&mut r, store, 2, p2);
    push_channel_command(&mut r, store, 3, p3);
    proof {
        assert(r@ =~= spec_route(store@, *data));
    }
    r
}

/// Append the command of one channel, if it has one.
fn push_channel_command(r: &mut Vec<VolumeCommand>, store: &MappingStore, channel_id: usize,
    pct: u32)
    ensures
        final(r)@ == old(r)@ + cmd_seq(spec_channel_command(spec_lookup(store@, channel_id), pct)),
{
    let ghost before = r@;
    match store.lookup(channel_id) {
        None => {},
        Some(m) => {
            if m.is_master {
                r.push(VolumeCommand::SetMaster(pct));
            } else {
                match m.process_id {
                    Some(pid) => {
                        r.push(VolumeCommand::SetApp(pid, pct));
                    },
                    None => {},
                }
            }
        },
    }
    proof {
        assert(r@ =~= before + cmd_seq(
            spec_channel_command(spec_lookup(store@, channel_id), pct),
        ));
    }
}

/// Hand each command to the backend, in order; a failing command never stops
/// the rest.  Returns how many commands failed.
pub fn apply_commands<A: AudioManager>(backend: &A, cmds: &Vec<VolumeCommand>) -> (failed: usize)
    ensures
        failed <= cmds@.len(),
{
    let mut failed: usize = 0;
    let mut i: usize = 0;
    while i < cmds.len()
        invariant
            i <= cmds@.len(),
            failed <= i,
        decreases cmds@.len() - i,
    {
        let outcome = match cmds[i] {
            VolumeCommand::SetMaster(pct) => backend.set_master_volume(pct),
            VolumeCommand::SetApp(pid, pct) => backend.set_app_volume(pid, pct),
        };
        if outcome.is_err() {
            failed += 1;
        }
        i += 1;
    }
    failed
}

/// Route one sample and apply its commands: the router's whole step for one
/// decoded sample.  Returns how many commands failed; failures are non-fatal
/// and later samples are processed the same way.
pub fn process_sample<A: AudioManager>(backend: &A, store: &MappingStore, data:
    &PotentiometerData) -> (failed: usize)
    ensures
        failed <= spec_route(store@, *data).len(),
{
    let cmds = route_sample(data, store);
    apply_commands(backend, &cmds)
}

} // verus!
