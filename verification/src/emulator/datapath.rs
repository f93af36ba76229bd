//! The signals of the two-stage CVE2 core that the emulator models
//! (after the `cve2_top` module of the OpenHW CVE2 core).
use vstd::prelude::*;

verus! {

/// The datapath signals of the core.
#[derive(Clone, Copy, Debug)]
pub struct CVE2Datapath {
    /// Clock and reset: input clock signal.
    pub clk_i: bool,
    /// Active-low reset signal.
    pub rst_ni: bool,
    /// Instruction memory interface: request an instruction fetch.
    pub instr_req_o: bool,
    /// Address of the instruction to fetch.
    pub instr_addr_o: u32,
    /// The fetched instruction word.
    pub instr_rdata_i: u32,
    /// The fetch request was granted.
    pub instr_gnt_i: bool,
    /// The fetched word is valid.
    pub instr_rvalid_i: bool,
    /// The fetch failed.
    pub instr_err_i: bool,
    /// Data memory interface: request a data access.
    pub data_req_o: bool,
    /// Address of the data access.
    pub data_addr_o: u32,
    /// Data to write.
    pub data_wdata_o: u32,
    /// Data read.
    pub data_rdata_i: u32,
    /// The access is a write.
    pub data_we_o: bool,
    /// Byte enables (four bits) of the access.
    pub data_be_o: u8,
    /// The data request was granted.
    pub data_gnt_i: bool,
    /// The data read is valid.
    pub data_rvalid_i: bool,
    /// The data access failed.
    pub data_err_i: bool,
    /// Core execution control: multi-cycle instruction in decode.
    pub id_multicycle: u32,
    /// Instruction fetch is enabled.
    pub fetch_enable_i: bool,
    /// The core sleeps.
    pub core_sleep_o: bool,
    /// Interrupts: software interrupt request.
    pub irq_software_i: bool,
    /// Timer interrupt request.
    pub irq_timer_i: bool,
    /// External interrupt request.
    pub irq_external_i: bool,
    /// Fast interrupt requests.
    pub irq_fast_i: u16,
    /// Non-maskable interrupt request.
    pub irq_nm_i: bool,
    /// Debug interface: debug request.
    pub debug_req_i: bool,
}

impl Default for CVE2Datapath {
    /// The reset state: instruction requests and fetching enabled, every
    /// other signal low or zero.
    fn default() -> (r: Self)
        ensures
            r.clk_i == false,
            r.rst_ni == false,
            r.instr_req_o == true,
            r.instr_addr_o == 0,
            r.instr_rdata_i == 0,
            r.instr_gnt_i == false,
            r.instr_rvalid_i == false,
            r.instr_err_i == false,
            r.data_req_o == false,
            r.data_addr_o == 0,
            r.data_wdata_o == 0,
            r.data_rdata_i == 0,
            r.data_we_o == false,
            r.data_be_o == 0,
            r.data_gnt_i == false,
            r.data_rvalid_i == false,
            r.data_err_i == false,
            r.id_multicycle == 0,
            r.fetch_enable_i == true,
            r.core_sleep_o == false,
            r.irq_software_i == false,
            r.irq_timer_i == false,
            r.irq_external_i == false,
            r.irq_fast_i == 0,
            r.irq_nm_i == false,
            r.debug_req_i == false,
    {
        Self {
            clk_i: false,
            rst_ni: false,
            instr_req_o: true,
            instr_addr_o: 0,
            instr_rdata_i: 0,
            instr_gnt_i: false,
            instr_rvalid_i: false,
            instr_err_i: false,
            data_req_o: false,
            data_addr_o: 0,
            data_wdata_o: 0,
            data_rdata_i: 0,
            data_we_o: false,
            data_be_o: 0,
            data_gnt_i: false,
            data_rvalid_i: false,
            data_err_i: false,
            id_multicycle: 0,
            fetch_enable_i: true,
            core_sleep_o: false,
            irq_software_i: false,
            irq_timer_i: false,
            irq_external_i: false,
            irq_fast_i: 0,
            irq_nm_i: false,
            debug_req_i: false,
        }
    }
}

/// The two pipeline stages of the core and their datapath.
#[allow(non_snake_case)]
#[derive(Copy, Clone, Debug)]
pub struct CVE2Pipeline {
    /// Instruction fetch buffer.
    pub IF: u32,
    /// Program counter of the fetch stage.
    pub IF_pc: u32,
    /// Instruction decode buffer.
    pub ID: u32,
    /// Program counter of the decode stage.
    pub ID_pc: u32,
    pub datapath: CVE2Datapath,
}

impl Default for CVE2Pipeline {
    fn default() -> (r: Self)
        ensures
            r.IF == 0,
            r.IF_pc == 0,
            r.ID == 0,
            r.ID_pc == 0,
            r.datapath == spec_reset_datapath(),
    {
        CVE2Pipeline { IF: 0, IF_pc: 0, ID: 0, ID_pc: 0, datapath: CVE2Datapath::default() }
    }
}

/// The datapath at reset.
pub open spec fn spec_reset_datapath() -> CVE2Datapath {
    CVE2Datapath {
        clk_i: false,
        rst_ni: false,
        instr_req_o: true,
        instr_addr_o: 0,
        instr_rdata_i: 0,
        instr_gnt_i: false,
        instr_rvalid_i: false,
        instr_err_i: false,
        data_req_o: false,
        data_addr_o: 0,
        data_wdata_o: 0,
        data_rdata_i: 0,
        data_we_o: false,
        data_be_o: 0,
        data_gnt_i: false,
        data_rvalid_i: false,
        data_err_i: false,
        id_multicycle: 0,
        fetch_enable_i: true,
        core_sleep_o: false,
        irq_software_i: false,
        irq_timer_i: false,
        irq_external_i: false,
        irq_fast_i: 0,
        irq_nm_i: false,
        debug_req_i: false,
    }
}

} // verus!
