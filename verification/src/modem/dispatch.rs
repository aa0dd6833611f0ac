//! Running a plan's requests over a serial port with the command layer.

use vstd::prelude::*;
use vstd::string::StringSliceAdditionalSpecFns;
use crate::commands::{
    exchanged, write_prefix, AtCommand, AtEncode, AtExecute, AtWrite, Cedrxs, Cfgri, Cgnsxtra,
    Ciicr, Cipshut, Cmee, Cmnb, Cnmp, Cntpcid, Csclk, DisconnectResult, GprsResult, Ifc,
};
use crate::error::Error;
use crate::serial::{new_events, PortEvent, SerialReadTimeout, SerialWrite};
use super::plan::ModemRequest;

verus! {

/// The request has a command in this library's command layer.
pub open spec fn has_command(request: ModemRequest) -> bool {
    match request {
        ModemRequest::SetFlowControl(_) | ModemRequest::SetSlowClock(_)
        | ModemRequest::ConfigureCmeErrors(_) | ModemRequest::SetNetworkMode(_)
        | ModemRequest::SetNbMode(_) | ModemRequest::ConfigureRiPin(_)
        | ModemRequest::ConfigureEdrx(_) | ModemRequest::ShutConnections
        | ModemRequest::StartGprs | ModemRequest::SetGprsBearerProfileId(_)
        | ModemRequest::SetGnssXtra(_) => true,
        _ => false,
    }
}

/// The step's result `r` for a command answered `w`: any answer the
/// decoding accepts is success; a failed exchange gives its error.
pub open spec fn step_result<T>(w: Result<T, Error>, r: Result<(), Error>) -> bool {
    match w {
        Ok(_) => r == Ok::<(), Error>(()),
        Err(e) => r == Err::<(), Error>(e),
    }
}

/// The events `e` of running `request` with the timeout `timeout_ms`, which
/// gives `r`: the exchange of the request's command (see [`exchanged`]),
/// its answer read as [`step_result`] says.
pub open spec fn request_exchanged(
    request: ModemRequest,
    e: Seq<PortEvent>,
    timeout_ms: u32,
    r: Result<(), Error>,
) -> bool {
    match request {
        ModemRequest::SetFlowControl(p) => exchanged::<()>(
            e,
            write_prefix(Ifc::COMMAND.spec_bytes(), p.encoding()),
            timeout_ms,
            r,
        ),
        ModemRequest::SetSlowClock(p) => exchanged::<()>(
            e,
            write_prefix(Csclk::COMMAND.spec_bytes(), p.encoding()),
            timeout_ms,
            r,
        ),
        ModemRequest::ConfigureCmeErrors(p) => exchanged::<()>(
            e,
            write_prefix(Cmee::COMMAND.spec_bytes(), p.encoding()),
            timeout_ms,
            r,
        ),
        ModemRequest::SetNetworkMode(p) => exchanged::<()>(
            e,
            write_prefix(Cnmp::COMMAND.spec_bytes(), p.encoding()),
            timeout_ms,
            r,
        ),
        ModemRequest::SetNbMode(p) => exchanged::<()>(
            e,
            write_prefix(Cmnb::COMMAND.spec_bytes(), p.encoding()),
            timeout_ms,
            r,
        ),
        ModemRequest::ConfigureRiPin(p) => exchanged::<()>(
            e,
            write_prefix(Cfgri::COMMAND.spec_bytes(), p.encoding()),
            timeout_ms,
            r,
        ),
        ModemRequest::ConfigureEdrx(p) => exchanged::<()>(
            e,
            write_prefix(Cedrxs::COMMAND.spec_bytes(), p.encoding()),
            timeout_ms,
            r,
        ),
        ModemRequest::ShutConnections => exists|w: Result<DisconnectResult, Error>|
            exchanged::<DisconnectResult>(e, Cipshut::COMMAND.spec_bytes(), timeout_ms, w)
                && step_result(w, r),
        ModemRequest::StartGprs => exists|w: Result<GprsResult, Error>|
            exchanged::<GprsResult>(e, Ciicr::COMMAND.spec_bytes(), timeout_ms, w) && step_result(
                w,
                r,
            ),
        ModemRequest::SetGprsBearerProfileId(id) => exchanged::<()>(
            e,
            write_prefix(Cntpcid::COMMAND.spec_bytes(), (id as i32).encoding()),
            timeout_ms,
            r,
        ),
        ModemRequest::SetGnssXtra(p) => exchanged::<()>(
            e,
            write_prefix(Cgnsxtra::COMMAND.spec_bytes(), p.encoding()),
            timeout_ms,
            r,
        ),
        _ => false,
    }
}

/// Sends `request` with its command and reads the answer, each read waiting
/// up to `timeout_ms`; `None`, with nothing done on the port, where this
/// library has no command for it.
pub fn run_request<B: SerialReadTimeout + SerialWrite>(
    request: &ModemRequest,
    serial: &mut B,
    timeout_ms: u32,
) -> (r: Option<Result<(), Error>>)
    ensures
        r is None <==> !has_command(*request),
        r is None ==> final(serial).events() == old(serial).events(),
        old(serial).events().is_prefix_of(final(serial).events()),
        r matches Some(x) ==> request_exchanged(
            *request,
            new_events(old(serial).events(), final(serial).events()),
            timeout_ms,
            x,
        ),
{
    proof {
        assert(old(serial).events().is_prefix_of(serial.events()));
    }
    match request {
        ModemRequest::SetFlowControl(p) => Some(Ifc.write(*p, serial, timeout_ms)),
        ModemRequest::SetSlowClock(p) => Some(Csclk.write(*p, serial, timeout_ms)),
        ModemRequest::ConfigureCmeErrors(p) => Some(Cmee.write(*p, serial, timeout_ms)),
        ModemRequest::SetNetworkMode(p) => Some(Cnmp.write(*p, serial, timeout_ms)),
        ModemRequest::SetNbMode(p) => Some(Cmnb.write(*p, serial, timeout_ms)),
        ModemRequest::ConfigureRiPin(p) => Some(Cfgri.write(*p, serial, timeout_ms)),
        ModemRequest::ConfigureEdrx(p) => Some(Cedrxs.write(*p, serial, timeout_ms)),
        ModemRequest::ShutConnections => {
            let w = Cipshut.execute(serial, timeout_ms);
            let r = match w {
                Ok(_) => Ok(()),
                Err(e) => Err(e),
            };
            proof {
                assert(step_result(w, r));
            }
            Some(r)
        },
        ModemRequest::StartGprs => {
            let w = Ciicr.execute(serial, timeout_ms);
            let r = match w {
                Ok(_) => Ok(()),
                Err(e) => Err(e),
            };
            proof {
                assert(step_result(w, r));
            }
            Some(r)
        },
        ModemRequest::SetGprsBearerProfileId(id) => Some(Cntpcid.write(*id as i32, serial, timeout_ms)),
        ModemRequest::SetGnssXtra(p) => Some(Cgnsxtra.write(*p, serial, timeout_ms)),
        _ => None,
    }
}

} // verus!
