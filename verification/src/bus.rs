//! The bus of the 2i: 8 bit addresses, 8 bit data.
//!
//! [`Bus`] is the interface that the CPU drives. [`Ram`] is the memory of the
//! machine, with overlays that hand ranges of addresses on to other devices;
//! [`IoRegisters`] are the input and output registers. A [`Device`] is either
//! of the two, owned by the RAM that it overlays.
//!
//! Each type has a mathematical view, and the spec functions [`io_read`],
//! [`io_write`], [`ram_read`], [`ram_write`], [`device_read`] and
//! [`device_write`] say on those views what an access does.

use vstd::prelude::*;
use crate::error::Error;

verus! {

/// The first address of the input registers.
pub const INPUT_BASE: u8 = 0xFC;

/// The first address of the output registers.
pub const OUTPUT_BASE: u8 = 0xFE;

/// A device on the bus of the 2i.
///
/// `read_of` and `write_of` say what an access does to a device in a given
/// state; `read` and `write` perform it. A write that fails leaves the device
/// as it was.
pub trait Bus: View + Sized {
    /// What a read of `address` returns from a device in `state`.
    spec fn read_of(state: Self::V, address: u8) -> Result<u8, Error>;

    /// The state that a write of `value` to `address` leaves a device in
    /// `state` in, or the error that it reports.
    spec fn write_of(state: Self::V, address: u8, value: u8) -> Result<Self::V, Error>;

    fn read(&self, address: u8) -> (value: Result<u8, Error>)
        ensures
            value == Self::read_of(self@, address),
    ;

    fn write(&mut self, address: u8, value: u8) -> (done: Result<(), Error>)
        ensures
            match Self::write_of(old(self)@, address, value) {
                Ok(next) => done is Ok && final(self)@ == next,
                Err(e) => done == Err::<(), Error>(e) && final(self)@ == old(self)@,
            },
    ;
}

/// The input and output registers as values.
pub struct IoView {
    /// The four input registers, at the addresses `FC` to `FF`.
    pub input: Seq<u8>,
    /// The two output registers, at the addresses `FE` and `FF`.
    pub output: Seq<u8>,
}

/// A RAM as values: its own cells and its overlays, in the order in which
/// they were added.
pub struct RamView {
    pub memory: Seq<u8>,
    pub overlays: Seq<OverlayView>,
}

/// An overlay as values: the device that serves the addresses from `first`
/// to `last`, both included.
pub struct OverlayView {
    pub first: u8,
    pub last: u8,
    pub device: DeviceView,
}

/// A device as values.
pub enum DeviceView {
    Ram(RamView),
    Io(IoView),
}

impl IoView {
    /// Four input and two output registers.
    pub open spec fn wf(self) -> bool {
        self.input.len() == 4 && self.output.len() == 2
    }
}

impl RamView {
    /// 256 cells, and every overlay well formed.
    pub open spec fn wf(self) -> bool
        decreases self,
    {
        &&& self.memory.len() == 256
        &&& forall|i: int| 0 <= i < self.overlays.len() ==> (#[trigger] self.overlays[i]).device.wf()
    }
}

impl DeviceView {
    pub open spec fn wf(self) -> bool
        decreases self,
    {
        match self {
            DeviceView::Ram(ram) => ram.wf(),
            DeviceView::Io(io) => io.wf(),
        }
    }
}

/// What a read returns from the input and output registers: the input
/// register at the addresses from `FC` on, also where an output register
/// lies, and an error below.
pub open spec fn io_read(io: IoView, address: u8) -> Result<u8, Error> {
    if address >= INPUT_BASE {
        Ok(io.input[address - INPUT_BASE])
    } else {
        Err(Error::Bus("Only supports reading from input registers"))
    }
}

/// What a write does to the input and output registers: it sets the output
/// register at `FE` and `FF`, and is an error elsewhere.
pub open spec fn io_write(io: IoView, address: u8, value: u8) -> Result<IoView, Error> {
    if address >= OUTPUT_BASE {
        Ok(IoView { input: io.input, output: io.output.update(address - OUTPUT_BASE, value) })
    } else if address >= INPUT_BASE {
        Err(Error::Bus("Cannot write to input register"))
    } else {
        Err(Error::Bus("Only supports writing to output registers"))
    }
}

/// Whether an overlay serves `address`.
pub open spec fn covers(overlay: OverlayView, address: u8) -> bool {
    overlay.first <= address <= overlay.last
}

/// The index of the first overlay from `from` on that serves `address`, or
/// the number of overlays if none does.
pub open spec fn first_covering(overlays: Seq<OverlayView>, address: u8, from: int) -> int
    decreases overlays.len() - from,
{
    if from < 0 || from >= overlays.len() {
        overlays.len() as int
    } else if covers(overlays[from], address) {
        from
    } else {
        first_covering(overlays, address, from + 1)
    }
}

/// What a read returns from a RAM: what the first overlay that serves the
/// address returns, or else the RAM's own cell.
pub open spec fn ram_read(ram: RamView, address: u8) -> Result<u8, Error>
    decreases ram,
{
    let i = first_covering(ram.overlays, address, 0);
    if 0 <= i < ram.overlays.len() {
        device_read(ram.overlays[i].device, address)
    } else {
        Ok(ram.memory[address as int])
    }
}

/// What a read returns from a device.
pub open spec fn device_read(device: DeviceView, address: u8) -> Result<u8, Error>
    decreases device,
{
    match device {
        DeviceView::Ram(ram) => ram_read(ram, address),
        DeviceView::Io(io) => io_read(io, address),
    }
}

/// What a write does to a RAM: it goes to the first overlay that serves the
/// address, or else to the RAM's own cell.
pub open spec fn ram_write(ram: RamView, address: u8, value: u8) -> Result<RamView, Error>
    decreases ram,
{
    let i = first_covering(ram.overlays, address, 0);
    if 0 <= i < ram.overlays.len() {
        match device_write(ram.overlays[i].device, address, value) {
            Ok(device) => Ok(
                RamView {
                    memory: ram.memory,
                    overlays: ram.overlays.update(
                        i,
                        OverlayView { first: ram.overlays[i].first, last: ram.overlays[i].last, device },
                    ),
                },
            ),
            Err(e) => Err(e),
        }
    } else {
        Ok(RamView { memory: ram.memory.update(address as int, value), overlays: ram.overlays })
    }
}

/// What a write does to a device.
pub open spec fn device_write(device: DeviceView, address: u8, value: u8) -> Result<
    DeviceView,
    Error,
>
    decreases device,
{
    match device {
        DeviceView::Ram(ram) => match ram_write(ram, address, value) {
            Ok(next) => Ok(DeviceView::Ram(next)),
            Err(e) => Err(e),
        },
        DeviceView::Io(io) => match io_write(io, address, value) {
            Ok(next) => Ok(DeviceView::Io(next)),
            Err(e) => Err(e),
        },
    }
}

/// The input and output registers of the 2i.
///
/// Reads at `FC` to `FF` return the input registers. Writes at `FE` and `FF`
/// set the output registers, which the bus cannot read back.
pub struct IoRegisters {
    input: [u8; 4],
    output: [u8; 2],
}

/// A device that a RAM can hold as an overlay.
pub enum Device {
    Ram(Ram),
    Io(IoRegisters),
}

/// A range of addresses of a RAM and the device that serves it.
struct Overlay {
    first_address: u8,
    last_address: u8,
    device: Device,
}

/// The RAM of the 2i: 256 cells of 8 bit, and overlays.
///
/// An access in the range of an overlay goes to the overlay's device. The
/// overlays are asked in the order in which they were added.
pub struct Ram {
    memory: [u8; 256],
    overlays: Vec<Overlay>,
}

/// An overlay as values.
spec fn overlay_view(overlay: Overlay) -> OverlayView
    decreases overlay,
{
    OverlayView {
        first: overlay.first_address,
        last: overlay.last_address,
        device: device_view(overlay.device),
    }
}

/// Overlays as values, in their order.
spec fn overlays_view(overlays: Seq<Overlay>) -> Seq<OverlayView>
    decreases overlays,
{
    Seq::new(
        overlays.len(),
        |i: int|
            if 0 <= i < overlays.len() {
                overlay_view(overlays[i])
            } else {
                arbitrary()
            },
    )
}

/// A RAM as values.
spec fn ram_view(ram: Ram) -> RamView
    decreases ram,
{
    RamView { memory: ram.memory@, overlays: overlays_view(ram.overlays@) }
}

/// A device as values.
spec fn device_view(device: Device) -> DeviceView
    decreases device,
{
    match device {
        Device::Ram(ram) => DeviceView::Ram(ram_view(ram)),
        Device::Io(io) => DeviceView::Io(io@),
    }
}

impl View for IoRegisters {
    type V = IoView;

    closed spec fn view(&self) -> IoView {
        IoView { input: self.input@, output: self.output@ }
    }
}

impl View for Ram {
    type V = RamView;

    closed spec fn view(&self) -> RamView {
        ram_view(*self)
    }
}

impl View for Device {
    type V = DeviceView;

    closed spec fn view(&self) -> DeviceView {
        device_view(*self)
    }
}

impl IoRegisters {
    /// Creates the registers, all of them zero.
    pub fn new() -> (io: IoRegisters)
        ensures
            io@.input == Seq::new(4, |i: int| 0u8),
            io@.output == Seq::new(2, |i: int| 0u8),
    {
        let io = IoRegisters { input: [0; 4], output: [0; 2] };
        assert(io@.input =~= Seq::new(4, |i: int| 0u8));
        assert(io@.output =~= Seq::new(2, |i: int| 0u8));
        io
    }

    /// The input registers, to read and to set.
    pub fn inspect_input(&mut self) -> (cells: &mut [u8; 4])
        ensures
            cells@ == old(self)@.input,
            final(self)@.input == final(cells)@,
            final(self)@.output == old(self)@.output,
    {
        &mut self.input
    }

    /// The output registers, to read and to set.
    pub fn inspect_output(&mut self) -> (cells: &mut [u8; 2])
        ensures
            cells@ == old(self)@.output,
            final(self)@.output == final(cells)@,
            final(self)@.input == old(self)@.input,
    {
        &mut self.output
    }

    /// The input registers.
    pub fn input(&self) -> (cells: &[u8; 4])
        ensures
            cells@ == self@.input,
    {
        &self.input
    }

    /// The output registers.
    pub fn output(&self) -> (cells: &[u8; 2])
        ensures
            cells@ == self@.output,
    {
        &self.output
    }
}

impl Default for IoRegisters {
    fn default() -> (io: IoRegisters)
        ensures
            io@.input == Seq::new(4, |i: int| 0u8),
            io@.output == Seq::new(2, |i: int| 0u8),
    {
        IoRegisters::new()
    }
}

impl Bus for IoRegisters {
    open spec fn read_of(state: IoView, address: u8) -> Result<u8, Error> {
        io_read(state, address)
    }

    open spec fn write_of(state: IoView, address: u8, value: u8) -> Result<IoView, Error> {
        io_write(state, address, value)
    }

    fn read(&self, address: u8) -> (value: Result<u8, Error>) {
        if address >= INPUT_BASE {
            Ok(self.input[(address - INPUT_BASE) as usize])
        } else {
            Err(Error::Bus("Only supports reading from input registers"))
        }
    }

    fn write(&mut self, address: u8, value: u8) -> (done: Result<(), Error>) {
        if address >= OUTPUT_BASE {
            self.output[(address - OUTPUT_BASE) as usize] = value;
            Ok(())
        } else if address >= INPUT_BASE {
            Err(Error::Bus("Cannot write to input register"))
        } else {
            Err(Error::Bus("Only supports writing to output registers"))
        }
    }
}

impl Ram {
    /// Creates a RAM without overlays, all cells zero.
    pub fn new() -> (ram: Ram)
        ensures
            ram@.memory == Seq::new(256, |i: int| 0u8),
            ram@.overlays == Seq::<OverlayView>::empty(),
    {
        let ram = Ram { memory: [0; 256], overlays: Vec::new() };
        assert(ram@.memory =~= Seq::new(256, |i: int| 0u8));
        assert(ram@.overlays =~= Seq::<OverlayView>::empty());
        ram
    }

    /// The RAM's own cells. What was written through an overlay is not in
    /// them.
    pub fn inspect(&self) -> (cells: &[u8; 256])
        ensures
            cells@ == self@.memory,
    {
        &self.memory
    }

    /// Adds a device as an overlay to the RAM.
    ///
    /// A read or write in the range from `first_address` to `last_address`,
    /// both included, goes to the device, unless an overlay that was added
    /// earlier serves the address.
    pub fn add_overlay(&mut self, first_address: u8, last_address: u8, device: Device)
        ensures
            final(self)@.memory == old(self)@.memory,
            final(self)@.overlays == old(self)@.overlays.push(
                OverlayView { first: first_address, last: last_address, device: device@ },
            ),
    {
        self.overlays.push(Overlay { first_address, last_address, device });
        assert(self@.overlays =~= old(self)@.overlays.push(
            OverlayView { first: first_address, last: last_address, device: device@ },
        ));
    }

    /// The number of overlays.
    pub fn overlay_count(&self) -> (count: usize)
        ensures
            count == self@.overlays.len(),
    {
        self.overlays.len()
    }

    /// The device of the overlay that was added as number `index`.
    pub fn overlay(&self, index: usize) -> (device: &Device)
        requires
            index < self@.overlays.len(),
        ensures
            device@ == self@.overlays[index as int].device,
    {
        &self.overlays[index].device
    }

    /// Puts `device` in the place of the device of overlay `index` and
    /// returns the device that was there. The range stays.
    pub fn replace_overlay(&mut self, index: usize, device: Device) -> (former: Device)
        requires
            index < old(self)@.overlays.len(),
        ensures
            former@ == old(self)@.overlays[index as int].device,
            final(self)@.memory == old(self)@.memory,
            final(self)@.overlays == old(self)@.overlays.update(
                index as int,
                OverlayView {
                    first: old(self)@.overlays[index as int].first,
                    last: old(self)@.overlays[index as int].last,
                    device: device@,
                },
            ),
    {
        let mut device = device;
        std::mem::swap(&mut self.overlays[index].device, &mut device);
        assert(self@.overlays =~= old(self)@.overlays.update(
            index as int,
            OverlayView {
                first: old(self)@.overlays[index as int].first,
                last: old(self)@.overlays[index as int].last,
                device: self.overlays@[index as int].device@,
            },
        ));
        device
    }

    /// The index of the first overlay that serves `address`, or the number
    /// of overlays.
    fn find_overlay(&self, address: u8) -> (index: usize)
        ensures
            index == first_covering(self@.overlays, address, 0),
            index <= self@.overlays.len(),
    {
        let mut i: usize = 0;
        while i < self.overlays.len()
            invariant
                i <= self.overlays.len(),
                self@.overlays.len() == self.overlays.len(),
                first_covering(self@.overlays, address, 0) == first_covering(
                    self@.overlays,
                    address,
                    i as int,
                ),
            decreases self.overlays.len() - i,
        {
            assert(self@.overlays[i as int] == overlay_view(self.overlays@[i as int]));
            if self.overlays[i].first_address <= address && address
                <= self.overlays[i].last_address {
                return i;
            }
            i += 1;
        }
        i
    }

    /// Reads the cell at `address`, from the first overlay that serves it or
    /// else from the RAM's own cells.
    pub fn read(&self, address: u8) -> (value: Result<u8, Error>)
        ensures
            value == ram_read(self@, address),
        decreases self,
    {
        let i = self.find_overlay(address);
        if i < self.overlays.len() {
            assert(self@.overlays[i as int] == overlay_view(self.overlays@[i as int]));
            self.overlays[i].device.read(address)
        } else {
            Ok(self.memory[address as usize])
        }
    }

    /// Writes the cell at `address`, in the first overlay that serves it or
    /// else in the RAM's own cells.
    pub fn write(&mut self, address: u8, value: u8) -> (done: Result<(), Error>)
        ensures
            match ram_write(old(self)@, address, value) {
                Ok(next) => done is Ok && final(self)@ == next,
                Err(e) => done == Err::<(), Error>(e) && final(self)@ == old(self)@,
            },
        decreases *old(self),
    {
        let i = self.find_overlay(address);
        if i < self.overlays.len() {
            assert(self@.overlays[i as int] == overlay_view(self.overlays@[i as int]));
            let done = self.overlays[i].device.write(address, value);
            proof {
                let before = old(self)@.overlays;
                let after = OverlayView {
                    first: before[i as int].first,
                    last: before[i as int].last,
                    device: self.overlays@[i as int].device@,
                };
                assert(self@.overlays =~= before.update(i as int, after));
                if done is Err {
                    assert(after == before[i as int]);
                    assert(self@.overlays =~= before);
                }
            }
            done
        } else {
            self.memory[address as usize] = value;
            Ok(())
        }
    }
}

/// A device that is made of a RAM or of registers has their view.
pub proof fn lemma_device_view(device: Device)
    ensures
        device matches Device::Ram(ram) ==> device@ == DeviceView::Ram(ram@),
        device matches Device::Io(io) ==> device@ == DeviceView::Io(io@),
{
}

/// Every RAM has 256 cells and well formed overlays; every set of input and
/// output registers has four input and two output registers.
pub proof fn lemma_ram_wf(ram: Ram, io: IoRegisters)
    ensures
        ram@.wf(),
        io@.wf(),
{
    lemma_views_wf(Device::Ram(ram));
}

/// The views of the types of this module are well formed.
pub proof fn lemma_views_wf(device: Device)
    ensures
        device@.wf(),
        device matches Device::Ram(ram) ==> ram@.wf(),
        device matches Device::Io(io) ==> io@.wf(),
    decreases device,
{
    match device {
        Device::Ram(ram) => {
            assert forall|i: int| 0 <= i < ram@.overlays.len() implies (
            #[trigger] ram@.overlays[i]).device.wf() by {
                lemma_views_wf(ram.overlays@[i].device);
            }
        },
        Device::Io(io) => {},
    }
}

impl Default for Ram {
    fn default() -> (ram: Ram)
        ensures
            ram@.memory == Seq::new(256, |i: int| 0u8),
            ram@.overlays == Seq::<OverlayView>::empty(),
    {
        Ram::new()
    }
}

impl Device {
    /// The input and output registers, if the device is those.
    pub fn as_io(&self) -> (io: Option<&IoRegisters>)
        ensures
            match self@ {
                DeviceView::Io(view) => io matches Some(found) && found@ == view,
                DeviceView::Ram(_) => io is None,
            },
    {
        match self {
            Device::Io(io) => Some(io),
            Device::Ram(_) => None,
        }
    }

    /// The RAM, if the device is one.
    pub fn as_ram(&self) -> (ram: Option<&Ram>)
        ensures
            match self@ {
                DeviceView::Ram(view) => ram matches Some(found) && found@ == view,
                DeviceView::Io(_) => ram is None,
            },
    {
        match self {
            Device::Ram(ram) => Some(ram),
            Device::Io(_) => None,
        }
    }

    /// Hands out the input and output registers, if the device is those.
    pub fn into_io(self) -> (io: Option<IoRegisters>)
        ensures
            match self@ {
                DeviceView::Io(view) => io matches Some(found) && found@ == view,
                DeviceView::Ram(_) => io is None,
            },
    {
        match self {
            Device::Io(io) => Some(io),
            Device::Ram(_) => None,
        }
    }

    /// Reads the cell at `address` from the device.
    pub fn read(&self, address: u8) -> (value: Result<u8, Error>)
        ensures
            value == device_read(self@, address),
        decreases self,
    {
        match self {
            Device::Ram(ram) => ram.read(address),
            Device::Io(io) => io.read(address),
        }
    }

    /// Writes the cell at `address` of the device.
    pub fn write(&mut self, address: u8, value: u8) -> (done: Result<(), Error>)
        ensures
            match device_write(old(self)@, address, value) {
                Ok(next) => done is Ok && final(self)@ == next,
                Err(e) => done == Err::<(), Error>(e) && final(self)@ == old(self)@,
            },
        decreases *old(self),
    {
        match self {
            Device::Ram(ram) => ram.write(address, value),
            Device::Io(io) => io.write(address, value),
        }
    }
}

impl Bus for Ram {
    open spec fn read_of(state: RamView, address: u8) -> Result<u8, Error> {
        ram_read(state, address)
    }

    open spec fn write_of(state: RamView, address: u8, value: u8) -> Result<RamView, Error> {
        ram_write(state, address, value)
    }

    fn read(&self, address: u8) -> (value: Result<u8, Error>) {
        Ram::read(self, address)
    }

    fn write(&mut self, address: u8, value: u8) -> (done: Result<(), Error>) {
        Ram::write(self, address, value)
    }
}

impl Bus for Device {
    open spec fn read_of(state: DeviceView, address: u8) -> Result<u8, Error> {
        device_read(state, address)
    }

    open spec fn write_of(state: DeviceView, address: u8, value: u8) -> Result<DeviceView, Error> {
        device_write(state, address, value)
    }

    fn read(&self, address: u8) -> (value: Result<u8, Error>) {
        Device::read(self, address)
    }

    fn write(&mut self, address: u8, value: u8) -> (done: Result<(), Error>) {
        Device::write(self, address, value)
    }
}

/// The output registers cannot be read back: a write to `FE` or `FF`
/// succeeds and sets the output register, and a read of the same address
/// returns the input register as before.
pub proof fn law_outputs_are_write_only(io: IoView, address: u8, value: u8)
    requires
        io.wf(),
        address >= OUTPUT_BASE,
    ensures
        io_write(io, address, value) matches Ok(next) && next.wf() && next.output[address
            - OUTPUT_BASE] == value && next.input == io.input && io_read(next, address) == io_read(
            io,
            address,
        ) && io_read(next, address) == Ok::<u8, Error>(io.input[address - INPUT_BASE]),
{
}

/// The input registers cannot be written: a write to `FC` or `FD` is an
/// error, as is every access below `FC`.
pub proof fn law_inputs_are_read_only(io: IoView, address: u8, value: u8)
    requires
        address < OUTPUT_BASE,
    ensures
        io_write(io, address, value) is Err,
        address < INPUT_BASE ==> io_read(io, address) is Err,
        address >= INPUT_BASE ==> io_read(io, address) is Ok,
{
}

/// [`first_covering`] from the start is an index of an overlay that serves
/// the address, before which no overlay serves it, or the number of
/// overlays if none serves it.
pub proof fn lemma_first_covering(overlays: Seq<OverlayView>, address: u8, from: int)
    requires
        0 <= from <= overlays.len(),
    ensures
        from <= first_covering(overlays, address, from) <= overlays.len(),
        forall|i: int|
            from <= i < first_covering(overlays, address, from) ==> !covers(
                #[trigger] overlays[i],
                address,
            ),
        first_covering(overlays, address, from) < overlays.len() ==> covers(
            overlays[first_covering(overlays, address, from)],
            address,
        ),
    decreases overlays.len() - from,
{
    if from < overlays.len() && !covers(overlays[from], address) {
        lemma_first_covering(overlays, address, from + 1);
    }
}

/// A write that no overlay serves goes to the RAM's own cell and to nothing
/// else; a read of the same address then returns the value.
pub proof fn law_ram_keeps_what_is_written(ram: RamView, address: u8, value: u8)
    requires
        ram.wf(),
        forall|i: int| 0 <= i < ram.overlays.len() ==> !covers(#[trigger] ram.overlays[i], address),
    ensures
        ram_write(ram, address, value) matches Ok(next) && next.wf() && next.overlays
            == ram.overlays && next.memory == ram.memory.update(address as int, value) && ram_read(
            next,
            address,
        ) == Ok::<u8, Error>(value),
{
    lemma_first_covering(ram.overlays, address, 0);
}

/// A write that an overlay serves goes to the first such overlay: the
/// device there sees the write, the RAM's own cells and every other overlay
/// stay as they are, and a read of the address returns what the device
/// returns. A write that the device refuses changes nothing.
pub proof fn law_overlay_takes_the_write(ram: RamView, address: u8, value: u8, index: int)
    requires
        ram.wf(),
        0 <= index < ram.overlays.len(),
        covers(ram.overlays[index], address),
        forall|i: int| 0 <= i < index ==> !covers(#[trigger] ram.overlays[i], address),
    ensures
        ram_read(ram, address) == device_read(ram.overlays[index].device, address),
        match device_write(ram.overlays[index].device, address, value) {
            Ok(device) => ram_write(ram, address, value) matches Ok(next) && next.memory
                == ram.memory && next.overlays.len() == ram.overlays.len() && next.overlays[index].device
                == device && (forall|i: int|
                0 <= i < ram.overlays.len() && i != index ==> next.overlays[i] == ram.overlays[i])
                && ram_read(next, address) == device_read(device, address),
            Err(e) => ram_write(ram, address, value) == Err::<RamView, Error>(e),
        },
{
    lemma_first_covering(ram.overlays, address, 0);
    let found = first_covering(ram.overlays, address, 0);
    assert(found == index) by {
        if found < index {
            assert(!covers(ram.overlays[found], address));
        }
    }
    match device_write(ram.overlays[index].device, address, value) {
        Ok(device) => {
            let next = ram_write(ram, address, value)->Ok_0;
            lemma_first_covering(next.overlays, address, 0);
            let again = first_covering(next.overlays, address, 0);
            assert(covers(next.overlays[index], address));
            assert(again == index) by {
                if again < index {
                    assert(next.overlays[again] == ram.overlays[again]);
                    assert(!covers(ram.overlays[again], address));
                }
            }
        },
        Err(e) => {},
    }
}

} // verus!
