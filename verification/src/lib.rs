//! A verified interpreter core for a small 8-bit virtual machine: 16 byte
//! registers, 4 KiB of memory, a 64x32 monochrome display with XOR sprite
//! blitting, a bounded call stack, a 16-key keypad and two countdown timers.
//!
//! The machine fetches a big-endian 16-bit instruction word at the program
//! counter, decodes it into nibbles, and executes one of the 34 baseline
//! operations. Faults (unknown opcode, stack overflow or underflow, fetch out
//! of bounds, a store that would cross the top of memory) are reported to the
//! caller before any state is mutated.

mod decode;
mod hardware;
mod screen;
mod stack;

pub use hardware::Chip8;
pub use hardware::Chip8View;
pub use hardware::Fault;
pub use hardware::MEM_SIZE;
pub use hardware::PROGRAM_START;
pub use hardware::RNG_SEED;
pub use hardware::STACK_LIMIT;
pub use hardware::addi_t;
pub use hardware::advanced;
pub use hardware::byte_add;
pub use hardware::byte_sub;
pub use hardware::call_t;
pub use hardware::carry_flag;
pub use hardware::cls_t;
pub use hardware::drw_t;
pub use hardware::fetch_ok;
pub use hardware::fetched_word;
pub use hardware::first_pressed;
pub use hardware::font;
pub use hardware::instr_effect;
pub use hardware::jp1_t;
pub use hardware::jp_t;
pub use hardware::ld_dt_t;
pub use hardware::ld_st_t;
pub use hardware::ldb_t;
pub use hardware::ldf_t;
pub use hardware::ldi_t;
pub use hardware::lemma_call_then_ret;
pub use hardware::lemma_font_region_preserved;
pub use hardware::lemma_store_load_roundtrip;
pub use hardware::load_regs;
pub use hardware::load_regs_t;
pub use hardware::retire_t;
pub use hardware::ret_t;
pub use hardware::rnd_t;
pub use hardware::set_v_flag_t;
pub use hardware::set_v_t;
pub use hardware::skip_t;
pub use hardware::sprite_at;
pub use hardware::store_fits;
pub use hardware::store_regs;
pub use hardware::store_regs_t;
pub use hardware::wait_t;
pub use hardware::initial_memory;
pub use hardware::initial_state;
pub use hardware::next_rng;
pub use hardware::no_borrow_flag;
pub use hardware::rng_byte;
pub use hardware::word_add;
pub use hardware::word_sub;

pub use decode::Instr;
pub use decode::combine2;
pub use decode::combine3;
pub use decode::components;
pub use decode::addr_of;
pub use decode::decode;
pub use decode::decode_spec;
pub use decode::imm_of;
pub use decode::instr_wf;
pub use decode::nib1;
pub use decode::nib2;
pub use decode::nib3;
pub use decode::nib4;
pub use screen::SCREEN_HEIGHT;
pub use screen::SCREEN_PIXELS;
pub use screen::SCREEN_WIDTH;
pub use screen::covers;
pub use screen::draw_collision;
pub use screen::draw_display;
pub use screen::lemma_draw_twice_restores;
pub use screen::pow2_of;
pub use screen::row_bit;
pub use screen::sprite_bit;
pub use stack::Stack;
