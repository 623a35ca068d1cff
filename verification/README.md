# agent-computer-use-macos

Drives macOS applications through their accessibility trees: finds applications and
elements, clicks, types, scrolls, and takes screenshots.

`src/` is the verified library. It decides everything and touches nothing: which
process a name means, which windows a screenshot tries and in which order, what an
action does step by step, and how failures are reported. Requests that need the
outside world are state machines. Each state has a command; the host carries it out
and hands back a reply.

| Module | What it decides |
| --- | --- |
| `pid` | which names are process targets (`pid:42`) |
| `apps` | which applications run, and which of them a name means |
| `platform` | which processes are remembered for names, and for how long |
| `windows` | which windows to capture, in which order |
| `node` | the text of an accessibility tree, and where to scroll in it |
| `listing` | what is reported of applications and windows |
| `query` | reading trees and finding elements |
| `perform` | performing an action |
| `course` | what holds of every action from beginning to end |
| `touch` | pressing an element, scrolling to it, setting its value |
| `activate` | bringing an application to the front |
| `capture` | writing an image of a window to a file |
| `program` | the arguments and the ends of the programs that are run |
| `fault`, `error` | the ways to fail, and the messages |
| `action`, `text` | the actions, and operations on strings |

`app/` is the host: the window server, image files, programs and clocks, with the
accessibility API and the input devices behind two traits. Coordinates are doubles
there; the library holds their bits and their text and does not compute with them.
