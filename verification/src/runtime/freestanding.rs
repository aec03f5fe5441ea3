//! C text of the freestanding prologue.

use vstd::prelude::*;

verus! {

/// The first line of every generated translation unit.
pub const BANNER: &'static str = r#"// generated by makac
"#;

/// Freestanding mode: the headers that every C implementation provides.
pub const FREESTANDING_HEADERS: &'static str = r#"// freestanding mode — no libc, no stdio, no malloc.
// User must provide: __maka_alloc, __maka_free, __maka_log, __maka_panic.
#include <stdint.h>
#include <stdbool.h>
#include <stddef.h>
#include <stdarg.h>
#include <stdatomic.h>
"#;

/// Freestanding mode: base types, the four hooks that the embedder supplies, and the
/// macros and helpers that route every allocation, release, log and panic to them. A
/// vector's buffer grows by doubling, so what it held is the first half of the new one.
pub const FREESTANDING_RUNTIME: &'static str = r#"typedef int64_t maka_int;
typedef double maka_float;
typedef uint8_t maka_char;
typedef struct { int dummy; } maka_unit;
static maka_unit MAKA_UNIT = {0};
extern void* __maka_alloc(size_t sz);
extern void  __maka_free(void* p);
extern void  __maka_log(const char* s);
extern void  __maka_panic(const char* msg);
#define malloc(sz)            __maka_alloc((size_t)(sz))
#define free(p)               __maka_free((void*)(p))
#define realloc(p, sz)        __maka_grow((void*)(p), (size_t)(sz))
#define maka_panic(s)         __maka_panic(s)
static inline void* __maka_grow(void* p, size_t sz) {
    unsigned char* q = (unsigned char*)__maka_alloc(sz);
    if (p && q) {
        for (size_t i = 0; i < sz / 2; i++) q[i] = ((unsigned char*)p)[i];
        __maka_free(p);
    }
    return q;
}
static inline void maka_log_str(const char* v) { __maka_log(v); }
static inline void maka_log_bool(bool v) { __maka_log(v ? "true" : "false"); }
static inline void maka_log_char(maka_char v) { char b[2] = { (char)v, 0 }; __maka_log(b); }
static inline void maka_log_int(maka_int v) {
    char b[24];
    int n = 23;
    uint64_t u = v < 0 ? 0 - (uint64_t)v : (uint64_t)v;
    b[n] = 0;
    do { b[--n] = (char)('0' + u % 10); u /= 10; } while (u);
    if (v < 0) b[--n] = '-';
    __maka_log(&b[n]);
}
static inline void maka_log_ptr(const void* v) {
    char b[32];
    int n = 31;
    uintptr_t u = (uintptr_t)v;
    if (!v) { __maka_log("null"); return; }
    b[n] = 0;
    b[--n] = '>';
    do { b[--n] = "0123456789abcdef"[u % 16]; u /= 16; } while (u);
    b[--n] = 'x'; b[--n] = '0'; b[--n] = ' '; b[--n] = 'r'; b[--n] = 't'; b[--n] = 'p'; b[--n] = '<';
    __maka_log(&b[n]);
}
static inline void maka_log_float(maka_float v) {
    char b[32], d[6];
    int n = 0, e = 0, i, last = 5;
    uint64_t m;
    if (v != v) { __maka_log("nan"); return; }
    if (v < 0) { b[n++] = '-'; v = -v; }
    if (v > 1.7976931348623157e308) { __maka_log(n ? "-inf" : "inf"); return; }
    if (v > 0) { while (v >= 10.0) { v /= 10.0; e++; } while (v < 1.0) { v *= 10.0; e--; } }
    m = (uint64_t)(v * 100000.0 + 0.5);
    if (m >= 1000000) { m /= 10; e++; }
    for (i = 5; i >= 0; i--) { d[i] = (char)('0' + m % 10); m /= 10; }
    while (last > 0 && d[last] == '0') last--;
    if (e >= 0 && e < 6) {
        for (i = 0; i <= e; i++) b[n++] = d[i];
        if (last > e) { b[n++] = '.'; for (i = e + 1; i <= last; i++) b[n++] = d[i]; }
    } else if (e < 0 && e >= -4) {
        b[n++] = '0'; b[n++] = '.';
        for (i = -1; i > e; i--) b[n++] = '0';
        for (i = 0; i <= last; i++) b[n++] = d[i];
    } else {
        b[n++] = d[0];
        if (last > 0) { b[n++] = '.'; for (i = 1; i <= last; i++) b[n++] = d[i]; }
        b[n++] = 'e'; b[n++] = e < 0 ? '-' : '+';
        if (e < 0) e = -e;
        if (e >= 100) b[n++] = (char)('0' + e / 100);
        b[n++] = (char)('0' + e / 10 % 10); b[n++] = (char)('0' + e % 10);
    }
    b[n] = 0;
    __maka_log(b);
}
static inline maka_int maka_check_idx(maka_int i, maka_int len, const char* msg){ if(i<0||i>=len) maka_panic(msg); return i; }
static maka_int maka_atomic_load_i64(maka_int* p) { return __atomic_load_n(p, __ATOMIC_SEQ_CST); }
static void     maka_atomic_store_i64(maka_int* p, maka_int v) { __atomic_store_n(p, v, __ATOMIC_SEQ_CST); }
static maka_int maka_atomic_fetch_add_i64(maka_int* p, maka_int d) { return __atomic_fetch_add(p, d, __ATOMIC_SEQ_CST); }
static maka_int maka_atomic_fetch_sub_i64(maka_int* p, maka_int d) { return __atomic_fetch_sub(p, d, __ATOMIC_SEQ_CST); }
static void     maka_fence(maka_int ord) { (void)ord; __atomic_thread_fence(__ATOMIC_SEQ_CST); }
"#;

} // verus!
